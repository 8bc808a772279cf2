//! The typed outcomes of a command exchange, the command tags that drive the
//! accumulator, and the protocol error taxonomy.

use vstd::prelude::*;

verus! {

/// One entry of a listing reply: a message number and its size in bytes.
#[derive(Clone, Copy, Debug)]
pub struct POP3EmailMetadata {
    pub message_id: i32,
    pub message_size: i32,
}

/// One entry of a unique-id reply: a message number and its server-assigned
/// printable-ASCII token.
#[derive(Clone, Debug)]
pub struct POP3EmailUidldata {
    pub message_id: i32,
    pub message_uid: String,
}

/// Mathematical view of a listing entry.
pub struct MetaView {
    pub message_id: int,
    pub message_size: int,
}

/// Mathematical view of a unique-id entry.
#[verifier::ext_equal]
pub struct UidlView {
    pub message_id: int,
    pub message_uid: Seq<char>,
}

impl View for POP3EmailMetadata {
    type V = MetaView;

    open spec fn view(&self) -> MetaView {
        MetaView { message_id: self.message_id as int, message_size: self.message_size as int }
    }
}

impl View for POP3EmailUidldata {
    type V = UidlView;

    open spec fn view(&self) -> UidlView {
        UidlView { message_id: self.message_id as int, message_uid: self.message_uid@ }
    }
}

/// The typed result of one completed exchange. Exactly one case is produced
/// per exchange.
#[derive(Debug)]
#[allow(inconsistent_fields)]
pub enum POP3Result {
    /// The server acknowledged the command; no payload.
    POP3Ok,
    /// The server rejected the command: a normal outcome, not an error.
    POP3Err,
    /// Mailbox statistics: message count and total size in bytes.
    POP3Stat { num_email: i32, mailbox_size: i32 },
    /// Unique-id entries, one per message.
    POP3Uidl { emails_metadata: Vec<POP3EmailUidldata> },
    /// Listing entries, one per message.
    POP3List { emails_metadata: Vec<POP3EmailMetadata> },
    /// The raw lines of a retrieved message, line endings stripped.
    POP3Message { raw: Vec<String> },
}

/// Mathematical view of a typed result.
#[verifier::ext_equal]
#[allow(inconsistent_fields)]
pub enum ResultView {
    Acknowledgment,
    Failure,
    Stat { num_email: int, mailbox_size: int },
    Uidl { entries: Seq<UidlView> },
    List { entries: Seq<MetaView> },
    Message { raw: Seq<Seq<char>> },
}

impl View for POP3Result {
    type V = ResultView;

    open spec fn view(&self) -> ResultView {
        match self {
            POP3Result::POP3Ok => ResultView::Acknowledgment,
            POP3Result::POP3Err => ResultView::Failure,
            POP3Result::POP3Stat { num_email, mailbox_size } => ResultView::Stat {
                num_email: *num_email as int,
                mailbox_size: *mailbox_size as int,
            },
            POP3Result::POP3Uidl { emails_metadata } => ResultView::Uidl {
                entries: emails_metadata@.map_values(|e: POP3EmailUidldata| e@),
            },
            POP3Result::POP3List { emails_metadata } => ResultView::List {
                entries: emails_metadata@.map_values(|e: POP3EmailMetadata| e@),
            },
            POP3Result::POP3Message { raw } => ResultView::Message {
                raw: raw@.map_values(|s: String| s@),
            },
        }
    }
}

/// Which command produced the current exchange. Decides whether a body
/// follows the status line and what shape each line must have.
#[derive(Clone, Copy, Debug, PartialEq, Eq, Structural)]
pub enum POP3Command {
    Greet,
    User,
    Pass,
    Stat,
    UidlAll,
    UidlOne,
    ListAll,
    ListOne,
    Retr,
    Dele,
    Noop,
    Rset,
    Quit,
}

/// Whether a success status line for this command is followed by a
/// multi-line body.
pub open spec fn expects_body(command: POP3Command) -> bool {
    command is UidlAll || command is ListAll || command is Retr
}

/// A reply that does not fit the grammar the current state expects. Never
/// silently defaulted: surfaced to the caller, aborting the exchange.
#[derive(Clone, Copy, Debug, PartialEq, Eq, Structural)]
pub enum ProtocolError {
    /// The first line of a reply matches neither status marker, or a status
    /// line that must carry a payload does not carry one of the right shape.
    MalformedStatusLine,
    /// A body line does not have the shape the command calls for.
    MalformedBodyLine,
    /// A line exceeded the defensive length bound before its CRLF arrived.
    OversizedLine,
    /// A byte outside printable ASCII control reached the framer: the wire
    /// protocol is ASCII text.
    InvalidEncoding,
}

} // verus!
