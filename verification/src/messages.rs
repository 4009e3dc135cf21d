//! The messages that gnomes of a swarm exchange, as plain values: regular swarm
//! messages with their header and payload, signatures, configurations, and the
//! casts that go to many gnomes.
use vstd::prelude::*;

verus! {

/// What a regular message's header announces.
#[derive(Debug, Clone, Copy, PartialEq, Eq, Structural)]
pub enum Header {
    /// Keeping the swarm in sync.
    Sync,
    /// A reconfiguration with the given configuration tag, by the given gnome.
    Reconfigure(u8, u64),
    /// A block with the given id.
    Block(u64),
}

impl Header {
    /// Whether this is a sync header.
    pub fn is_sync(&self) -> (r: bool)
        ensures
            r == (*self is Sync),
    {
        matches!(self, Header::Sync)
    }

    /// Whether this is a reconfiguration header.
    pub fn is_reconfigure(&self) -> (r: bool)
        ensures
            r == (*self is Reconfigure),
    {
        matches!(self, Header::Reconfigure(_, _))
    }
}

/// What a `Signature` holds.
pub enum SignatureView {
    Regular(u64, Seq<u8>),
    Extended(u64, Seq<u8>, Seq<u8>),
}

/// A signature by a gnome: its bytes alone, or with the signer's public key.
#[derive(Debug)]
pub enum Signature {
    /// The signer and the signature's bytes.
    Regular(u64, Vec<u8>),
    /// The signer, its public key, and the signature's bytes.
    Extended(u64, Vec<u8>, Vec<u8>),
}

impl View for Signature {
    type V = SignatureView;

    open spec fn view(&self) -> SignatureView {
        match self {
            Signature::Regular(g, s) => SignatureView::Regular(*g, s@),
            Signature::Extended(g, k, s) => SignatureView::Extended(*g, k@, s@),
        }
    }
}

/// The signer of a signature.
pub open spec fn signer(s: SignatureView) -> u64 {
    match s {
        SignatureView::Regular(g, _) => g,
        SignatureView::Extended(g, _, _) => g,
    }
}

/// The byte that tells a signature's kind on the wire.
pub open spec fn signature_header_byte(s: SignatureView) -> u8 {
    match s {
        SignatureView::Regular(_, _) => 0,
        SignatureView::Extended(_, _, _) => 255,
    }
}

/// The bytes of a signature on the wire: the public key, where there is one,
/// then the signature.
pub open spec fn signature_bytes(s: SignatureView) -> Seq<u8> {
    match s {
        SignatureView::Regular(_, sig) => sig,
        SignatureView::Extended(_, key, sig) => key + sig,
    }
}

/// The length of a signature's bytes.
pub const SIGNATURE_LEN: usize = 256;

/// The length of a public key's bytes.
pub const PUBKEY_LEN: usize = 270;

/// Whether a signature has the lengths the wire format reads: a 256-byte
/// signature, and a 270-byte key where there is one.
pub open spec fn signature_well_sized(s: SignatureView) -> bool {
    match s {
        SignatureView::Regular(_, sig) => sig.len() == SIGNATURE_LEN,
        SignatureView::Extended(_, key, sig) => key.len() == PUBKEY_LEN && sig.len()
            == SIGNATURE_LEN,
    }
}

impl Signature {
    /// The signer.
    pub fn gnome_id(&self) -> (r: u64)
        ensures
            r == signer(self@),
    {
        match self {
            Signature::Regular(g, _) => *g,
            Signature::Extended(g, _, _) => *g,
        }
    }

    /// The bytes of this signature on the wire.
    pub fn bytes(&self) -> (r: Vec<u8>)
        ensures
            r@ == signature_bytes(self@),
    {
        match self {
            Signature::Regular(_, sig) => sig.clone(),
            Signature::Extended(_, key, sig) => {
                let mut v = key.clone();
                let mut s = sig.clone();
                v.append(&mut s);
                v
            },
        }
    }

    /// The byte that tells this signature's kind.
    pub fn header_byte(&self) -> (r: u8)
        ensures
            r == signature_header_byte(self@),
    {
        match self {
            Signature::Regular(_, _) => 0,
            Signature::Extended(_, _, _) => 255,
        }
    }
}

/// What a `Configuration` holds.
pub enum ConfigurationView {
    StartBroadcast(u64, u8),
    ChangeBroadcastOrigin(u64, u8),
    EndBroadcast(u8),
    StartMulticast(u64, u8),
    ChangeMulticastOrigin(u64, u8),
    EndMulticast(u8),
    CreateGroup,
    DeleteGroup,
    ModifyGroup,
    InsertPubkey(u64, Seq<u8>),
    UserDefined(u8),
}

/// A change of a swarm's configuration.
#[derive(Debug)]
pub enum Configuration {
    /// A gnome starts a broadcast with the given cast id.
    StartBroadcast(u64, u8),
    /// A gnome takes over as origin of a broadcast.
    ChangeBroadcastOrigin(u64, u8),
    /// A broadcast ends.
    EndBroadcast(u8),
    /// A gnome starts a multicast with the given cast id.
    StartMulticast(u64, u8),
    /// A gnome takes over as origin of a multicast.
    ChangeMulticastOrigin(u64, u8),
    /// A multicast ends.
    EndMulticast(u8),
    CreateGroup,
    DeleteGroup,
    ModifyGroup,
    /// A gnome's public key joins the key registry.
    InsertPubkey(u64, Vec<u8>),
    /// A configuration that the application defines, by its tag.
    UserDefined(u8),
}

impl View for Configuration {
    type V = ConfigurationView;

    open spec fn view(&self) -> ConfigurationView {
        match self {
            Configuration::StartBroadcast(g, c) => ConfigurationView::StartBroadcast(*g, *c),
            Configuration::ChangeBroadcastOrigin(g, c) => ConfigurationView::ChangeBroadcastOrigin(
                *g,
                *c,
            ),
            Configuration::EndBroadcast(c) => ConfigurationView::EndBroadcast(*c),
            Configuration::StartMulticast(g, c) => ConfigurationView::StartMulticast(*g, *c),
            Configuration::ChangeMulticastOrigin(g, c) => ConfigurationView::ChangeMulticastOrigin(
                *g,
                *c,
            ),
            Configuration::EndMulticast(c) => ConfigurationView::EndMulticast(*c),
            Configuration::CreateGroup => ConfigurationView::CreateGroup,
            Configuration::DeleteGroup => ConfigurationView::DeleteGroup,
            Configuration::ModifyGroup => ConfigurationView::ModifyGroup,
            Configuration::InsertPubkey(g, k) => ConfigurationView::InsertPubkey(*g, k@),
            Configuration::UserDefined(t) => ConfigurationView::UserDefined(*t),
        }
    }
}

/// The tag of each configuration, as the reconfiguration header carries it.
pub open spec fn configuration_tag(c: ConfigurationView) -> u8 {
    match c {
        ConfigurationView::StartBroadcast(_, _) => 254,
        ConfigurationView::ChangeBroadcastOrigin(_, _) => 253,
        ConfigurationView::EndBroadcast(_) => 252,
        ConfigurationView::StartMulticast(_, _) => 251,
        ConfigurationView::ChangeMulticastOrigin(_, _) => 250,
        ConfigurationView::EndMulticast(_) => 249,
        ConfigurationView::CreateGroup => 248,
        ConfigurationView::DeleteGroup => 247,
        ConfigurationView::ModifyGroup => 246,
        ConfigurationView::InsertPubkey(_, _) => 245,
        ConfigurationView::UserDefined(t) => t,
    }
}

/// The bytes a configuration adds after the reconfiguration header: the cast id
/// of a cast configuration, the key of a key insertion, nothing for the others.
pub open spec fn configuration_content(c: ConfigurationView) -> Seq<u8> {
    match c {
        ConfigurationView::StartBroadcast(_, c) => seq![c],
        ConfigurationView::ChangeBroadcastOrigin(_, c) => seq![c],
        ConfigurationView::EndBroadcast(c) => seq![c],
        ConfigurationView::StartMulticast(_, c) => seq![c],
        ConfigurationView::ChangeMulticastOrigin(_, c) => seq![c],
        ConfigurationView::EndMulticast(c) => seq![c],
        ConfigurationView::InsertPubkey(_, key) => key,
        _ => seq![],
    }
}

impl Configuration {
    /// The tag of this configuration.
    pub fn header_byte(&self) -> (r: u8)
        ensures
            r == configuration_tag(self@),
    {
        match self {
            Configuration::StartBroadcast(_, _) => 254,
            Configuration::ChangeBroadcastOrigin(_, _) => 253,
            Configuration::EndBroadcast(_) => 252,
            Configuration::StartMulticast(_, _) => 251,
            Configuration::ChangeMulticastOrigin(_, _) => 250,
            Configuration::EndMulticast(_) => 249,
            Configuration::CreateGroup => 248,
            Configuration::DeleteGroup => 247,
            Configuration::ModifyGroup => 246,
            Configuration::InsertPubkey(_, _) => 245,
            Configuration::UserDefined(t) => *t,
        }
    }

    /// The bytes this configuration adds after the reconfiguration header.
    pub fn content_bytes(&self) -> (r: Vec<u8>)
        ensures
            r@ == configuration_content(self@),
    {
        let r = match self {
            Configuration::StartBroadcast(_, c) => vec![*c],
            Configuration::ChangeBroadcastOrigin(_, c) => vec![*c],
            Configuration::EndBroadcast(c) => vec![*c],
            Configuration::StartMulticast(_, c) => vec![*c],
            Configuration::ChangeMulticastOrigin(_, c) => vec![*c],
            Configuration::EndMulticast(c) => vec![*c],
            Configuration::InsertPubkey(_, key) => key.clone(),
            _ => Vec::new(),
        };
        assert(r@ =~= configuration_content(self@));
        r
    }
}

/// What a `Payload` holds.
pub enum PayloadView {
    KeepAlive(u64),
    Bye,
    Reconfigure(SignatureView, ConfigurationView),
    Block(u64, SignatureView, Seq<u8>),
}

/// What a regular message carries.
#[derive(Debug)]
pub enum Payload {
    /// The bandwidth the sender has to spare.
    KeepAlive(u64),
    /// The sender leaves.
    Bye,
    /// A signed configuration change.
    Reconfigure(Signature, Configuration),
    /// A signed block of data with its id.
    Block(u64, Signature, Vec<u8>),
}

impl View for Payload {
    type V = PayloadView;

    open spec fn view(&self) -> PayloadView {
        match self {
            Payload::KeepAlive(b) => PayloadView::KeepAlive(*b),
            Payload::Bye => PayloadView::Bye,
            Payload::Reconfigure(s, c) => PayloadView::Reconfigure(s@, c@),
            Payload::Block(b, s, d) => PayloadView::Block(*b, s@, d@),
        }
    }
}

/// What a `Message` holds.
pub struct MessageView {
    pub swarm_time: u32,
    pub neighborhood: u8,
    pub header: Header,
    pub payload: PayloadView,
}

/// A regular swarm message.
#[derive(Debug)]
pub struct Message {
    pub swarm_time: u32,
    pub neighborhood: u8,
    pub header: Header,
    pub payload: Payload,
}

impl View for Message {
    type V = MessageView;

    open spec fn view(&self) -> MessageView {
        MessageView {
            swarm_time: self.swarm_time,
            neighborhood: self.neighborhood,
            header: self.header,
            payload: self.payload@,
        }
    }
}

/// What a `CastMessage` holds.
pub struct CastMessageView {
    pub kind: crate::networking::sock::CastKind,
    pub id: u8,
    pub data: Seq<u8>,
}

/// A message cast to many gnomes: its kind, cast id and data.
#[derive(Debug)]
pub struct CastMessage {
    pub kind: crate::networking::sock::CastKind,
    pub id: u8,
    pub data: Vec<u8>,
}

impl View for CastMessage {
    type V = CastMessageView;

    open spec fn view(&self) -> CastMessageView {
        CastMessageView { kind: self.kind, id: self.id, data: self.data@ }
    }
}

} // verus!
