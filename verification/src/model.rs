//! The data the service round-trips on every turn: the extracted document
//! fields, the conversation history, and the combined application state.
//!
//! The server is stateless: an [`ApplicationState`] is owned by the caller,
//! submitted whole with each request and returned whole, updated, with each
//! response. Every type has a deep view (a mirror over sequences) that the
//! contracts and the JSON codec speak of.
use vstd::prelude::*;

verus! {

/// A four-language summary of the document.
#[derive(Debug, Clone, PartialEq, Eq)]
pub struct MultiLingual {
    pub en: String,
    pub fr: String,
    pub nl: String,
    pub de: String,
}

#[verifier::ext_equal]
/// Mirror of [`MultiLingual`] over sequences.
pub struct MultiLingualV {
    pub en: Seq<char>,
    pub fr: Seq<char>,
    pub nl: Seq<char>,
    pub de: Seq<char>,
}

impl DeepView for MultiLingual {
    type V = MultiLingualV;

    open spec fn deep_view(&self) -> MultiLingualV {
        MultiLingualV { en: self.en@, fr: self.fr@, nl: self.nl@, de: self.de@ }
    }
}

impl MultiLingualV {
    /// The summary with every language empty.
    pub open spec fn empty() -> MultiLingualV {
        MultiLingualV {
            en: Seq::empty(),
            fr: Seq::empty(),
            nl: Seq::empty(),
            de: Seq::empty(),
        }
    }
}

impl MultiLingual {
    /// A summary with every language empty.
    pub fn empty() -> (r: MultiLingual)
        ensures
            r.deep_view() == MultiLingualV::empty(),
    {
        MultiLingual { en: String::new(), fr: String::new(), nl: String::new(), de: String::new() }
    }
}

/// Extracted document metadata.
#[derive(Debug, Clone, PartialEq, Eq)]
pub struct Metadata {
    pub doctype: String,
    pub act_date: String,
    pub fact_date: String,
    pub summary: MultiLingual,
}

#[verifier::ext_equal]
/// Mirror of [`Metadata`] over sequences.
pub struct MetadataV {
    pub doctype: Seq<char>,
    pub act_date: Seq<char>,
    pub fact_date: Seq<char>,
    pub summary: MultiLingualV,
}

impl DeepView for Metadata {
    type V = MetadataV;

    open spec fn deep_view(&self) -> MetadataV {
        MetadataV {
            doctype: self.doctype@,
            act_date: self.act_date@,
            fact_date: self.fact_date@,
            summary: self.summary.deep_view(),
        }
    }
}

impl MetadataV {
    /// The metadata with every field empty.
    pub open spec fn empty() -> MetadataV {
        MetadataV {
            doctype: Seq::empty(),
            act_date: Seq::empty(),
            fact_date: Seq::empty(),
            summary: MultiLingualV::empty(),
        }
    }
}

impl Metadata {
    /// Metadata with every field empty.
    pub fn empty() -> (r: Metadata)
        ensures
            r.deep_view() == MetadataV::empty(),
    {
        Metadata {
            doctype: String::new(),
            act_date: String::new(),
            fact_date: String::new(),
            summary: MultiLingual::empty(),
        }
    }
}

/// A person the model found in the document.
#[derive(Debug, Clone, PartialEq, Eq)]
pub struct Person {
    pub firstname: String,
    pub lastname: String,
    pub role: String,
    pub function: String,
}

#[verifier::ext_equal]
/// Mirror of [`Person`] over sequences.
pub struct PersonV {
    pub firstname: Seq<char>,
    pub lastname: Seq<char>,
    pub role: Seq<char>,
    pub function: Seq<char>,
}

impl DeepView for Person {
    type V = PersonV;

    open spec fn deep_view(&self) -> PersonV {
        PersonV {
            firstname: self.firstname@,
            lastname: self.lastname@,
            role: self.role@,
            function: self.function@,
        }
    }
}

/// A location the model found in the document.
#[derive(Debug, Clone, PartialEq, Eq)]
pub struct Location {
    pub name: String,
    pub loctype: String,
}

#[verifier::ext_equal]
/// Mirror of [`Location`] over sequences.
pub struct LocationV {
    pub name: Seq<char>,
    pub loctype: Seq<char>,
}

impl DeepView for Location {
    type V = LocationV;

    open spec fn deep_view(&self) -> LocationV {
        LocationV { name: self.name@, loctype: self.loctype@ }
    }
}

/// The whole extraction for one document. `document` holds the canonical
/// source text: the merge engine overwrites it after every model turn, so it
/// never carries what the model echoed back.
#[derive(Debug, Clone, PartialEq, Eq)]
pub struct DocumentData {
    pub document: String,
    pub metadata: Metadata,
    pub persons: Vec<Person>,
    pub locations: Vec<Location>,
}

#[verifier::ext_equal]
/// Mirror of [`DocumentData`] over sequences.
pub struct DocumentDataV {
    pub document: Seq<char>,
    pub metadata: MetadataV,
    pub persons: Seq<PersonV>,
    pub locations: Seq<LocationV>,
}

impl DeepView for DocumentData {
    type V = DocumentDataV;

    open spec fn deep_view(&self) -> DocumentDataV {
        DocumentDataV {
            document: self.document@,
            metadata: self.metadata.deep_view(),
            persons: self.persons.deep_view(),
            locations: self.locations.deep_view(),
        }
    }
}

impl DocumentDataV {
    /// The extraction holding only the given document text, everything else
    /// empty.
    pub open spec fn of_document(document: Seq<char>) -> DocumentDataV {
        DocumentDataV {
            document: document,
            metadata: MetadataV::empty(),
            persons: Seq::empty(),
            locations: Seq::empty(),
        }
    }
}

impl DocumentData {
    /// An extraction holding only the given document text, everything else
    /// empty: the state before the first completed model turn.
    pub fn of_document(document: String) -> (r: DocumentData)
        ensures
            r.deep_view() == DocumentDataV::of_document(document@),
    {
        let r = DocumentData {
            document,
            metadata: Metadata::empty(),
            persons: Vec::new(),
            locations: Vec::new(),
        };
        proof {
            assert(r.persons.deep_view() =~= Seq::<PersonV>::empty());
            assert(r.locations.deep_view() =~= Seq::<LocationV>::empty());
        }
        r
    }
}

/// Who said a conversation turn.
#[derive(Debug, Clone, Copy, PartialEq, Eq, Structural)]
pub enum Role {
    User,
    Assistant,
}

/// One turn of the conversation: a role tag and free text.
#[derive(Debug, Clone, PartialEq, Eq)]
pub struct ChatMessage {
    pub role: Role,
    pub content: String,
}

#[verifier::ext_equal]
/// Mirror of [`ChatMessage`] with the content as a sequence.
pub struct ChatMessageV {
    pub role: Role,
    pub content: Seq<char>,
}

impl DeepView for ChatMessage {
    type V = ChatMessageV;

    open spec fn deep_view(&self) -> ChatMessageV {
        ChatMessageV { role: self.role, content: self.content@ }
    }
}

/// Everything a client holds between requests: the extraction so far and the
/// append-only conversation history.
#[derive(Debug, Clone, PartialEq, Eq)]
pub struct ApplicationState {
    pub document_data: DocumentData,
    pub conversation: Vec<ChatMessage>,
}

#[verifier::ext_equal]
/// Mirror of [`ApplicationState`] over sequences.
pub struct ApplicationStateV {
    pub document_data: DocumentDataV,
    pub conversation: Seq<ChatMessageV>,
}

impl DeepView for ApplicationState {
    type V = ApplicationStateV;

    open spec fn deep_view(&self) -> ApplicationStateV {
        ApplicationStateV {
            document_data: self.document_data.deep_view(),
            conversation: self.conversation.deep_view(),
        }
    }
}

impl ApplicationState {
    /// The state before anything happened: an empty extraction, no turns.
    pub fn empty() -> (r: ApplicationState)
        ensures
            r.deep_view().document_data == DocumentDataV::of_document(Seq::empty()),
            r.deep_view().conversation == Seq::<ChatMessageV>::empty(),
    {
        let r = ApplicationState {
            document_data: DocumentData::of_document(String::new()),
            conversation: Vec::new(),
        };
        proof {
            assert(r.conversation.deep_view() =~= Seq::<ChatMessageV>::empty());
        }
        r
    }
}

} // verus!
