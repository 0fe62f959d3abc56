//! The open documents, and what each event of the editor does to them.
//!
//! Documents are kept in a `dashmap::DashMap` under their URL. Verus does
//! not look inside the map: what it holds has a name, and what is stated
//! of its methods is believed without proof.

use vstd::prelude::*;
use dashmap::DashMap;
use crate::analysis::diagnostics::{flattened, lsp_diagnostics, shows, Diagnostics};
use crate::analysis::document::{Document, DocumentError};
use crate::analysis::semantic_token::{places_ordered, semantic_tokens, tokens_of};
use crate::analysis::window::range_selects;
use crate::utils::rope::text_bytes;
use crate::analysis::session::Session;
use crate::protocol;

verus! {

/// `dashmap::DashMap`: a map from keys to values.
#[verifier::external_type_specification]
#[verifier::external_body]
#[verifier::reject_recursive_types(K)]
#[verifier::reject_recursive_types(V)]
#[verifier::reject_recursive_types(S)]
pub struct ExDashMap<K, V, S>(DashMap<K, V, S>);

/// The documents that a map holds, each under its key.
pub uninterp spec fn held(map: DashMap<String, Document>) -> Map<Seq<char>, Document>;

/// `DashMap::new` makes a map that holds nothing.
#[verifier::external_body]
fn map_new() -> (made: DashMap<String, Document>)
    ensures
        forall|url: Seq<char>| !held(made).contains_key(url),
{
    DashMap::new()
}

/// `DashMap::insert` puts a value under a key, in place of what stood
/// there.
#[verifier::external_body]
fn map_insert(map: &mut DashMap<String, Document>, url: String, doc: Document)
    ensures
        held(*final(map)) == held(*old(map)).insert(url@, doc),
{
    map.insert(url, doc);
}

/// `DashMap::remove` takes out what stands under a key and hands it over,
/// if anything stands there.
#[verifier::external_body]
fn map_remove(map: &mut DashMap<String, Document>, url: &str) -> (doc: Option<Document>)
    ensures
        doc == (if held(*old(map)).contains_key(url@) {
            Some(held(*old(map))[url@])
        } else {
            None
        }),
        held(*final(map)) == held(*old(map)).remove(url@),
{
    map.remove(url).map(|(_, doc)| doc)
}

/// `DashMap::contains_key` says whether anything stands under a key.
#[verifier::external_body]
fn map_contains(map: &DashMap<String, Document>, url: &str) -> (found: bool)
    ensures
        found == held(*map).contains_key(url@),
{
    map.contains_key(url)
}

/// `DashMap::iter` walks the entries in no stated order. The keys come out
/// each once.
#[verifier::external_body]
fn map_keys(map: &DashMap<String, Document>) -> (urls: Vec<String>)
    ensures
        forall|url: Seq<char>|
            held(*map).contains_key(url) <==> exists|i: int|
                0 <= i < urls.len() && (#[trigger] urls[i])@ == url,
        forall|i: int, j: int| 0 <= i < j < urls.len() ==> urls[i]@ != urls[j]@,
{
    map.iter().map(|entry| entry.key().clone()).collect()
}

/// What the editor reports.
pub enum Event {
    /// The connection is set up.
    Initialized,
    /// The settings have changed.
    ConfigurationChanged,
    /// A document was opened with this text.
    Opened { url: String, text: String },
    /// A document was edited. Each change carries the whole new text.
    Changed { url: String, changes: Vec<String> },
    /// A document was saved.
    Saved { url: String },
    /// A document was closed.
    Closed { url: String },
}

/// What is to be done after an event.
pub enum Action {
    Nothing,
    /// Check this document and publish its diagnostics.
    Publish(String),
    /// Check every open document and publish its diagnostics.
    PublishAll,
}

/// Whether two collections of documents agree on every URL but one.
pub open spec fn same_elsewhere(
    a: Map<Seq<char>, Document>,
    b: Map<Seq<char>, Document>,
    url: Seq<char>,
) -> bool {
    forall|other: Seq<char>|
        other != url ==> (a.contains_key(other) == b.contains_key(other)) && (a.contains_key(other)
            ==> #[trigger] a[other] == b[other])
}

/// The text that a list of changes leaves: that of the last change, and
/// the text before where there is no change.
pub open spec fn last_text(before: Seq<char>, changes: Seq<String>) -> Seq<char> {
    if changes.len() == 0 {
        before
    } else {
        changes.last()@
    }
}

/// Currently open documents.
pub struct DocumentStore {
    docs: DashMap<String, Document>,
}

impl DocumentStore {
    /// The open documents, each under its URL.
    pub closed spec fn documents(&self) -> Map<Seq<char>, Document> {
        held(self.docs)
    }

    /// Every document is well-formed and stands under its own URL.
    pub open spec fn wf(&self) -> bool {
        forall|url: Seq<char>| #[trigger]
            self.documents().contains_key(url) ==> self.documents()[url].wf()
                && self.documents()[url].url@ == url
    }

    /// The text of the document at a URL, if it is open.
    pub open spec fn text_of(&self, url: Seq<char>) -> Option<Seq<char>> {
        if self.documents().contains_key(url) {
            Some(self.documents()[url].text())
        } else {
            None
        }
    }

    /// A store with no open document.
    pub fn new() -> (store: DocumentStore)
        ensures
            store.documents() == Map::<Seq<char>, Document>::empty(),
            store.wf(),
    {
        DocumentStore { docs: map_new() }
    }

    /// Whether a document is open at `url`.
    pub fn contains(&self, url: &str) -> (found: bool)
        ensures
            found == self.documents().contains_key(url@),
    {
        map_contains(&self.docs, url)
    }

    /// The URLs of the open documents, each once, in no particular order.
    pub fn urls(&self) -> (urls: Vec<String>)
        ensures
            forall|url: Seq<char>|
                self.documents().contains_key(url) <==> exists|i: int|
                    0 <= i < urls.len() && (#[trigger] urls[i])@ == url,
            forall|i: int, j: int| 0 <= i < j < urls.len() ==> urls[i]@ != urls[j]@,
    {
        map_keys(&self.docs)
    }

    /// Read the contents of `url` using function `reader`.
    ///
    /// `None` where no document is open at `url`: the reader is then not
    /// called. The store is left as it was.
    pub fn read_document<T, F: FnOnce(&Document) -> Option<T>>(&mut self, url: &str, reader: F) -> (read:
        Option<T>)
        requires
            old(self).wf(),
            forall|doc: Document| doc.wf() ==> reader.requires((&doc,)),
        ensures
            final(self).documents() == old(self).documents(),
            old(self).documents().contains_key(url@) ==> reader.ensures(
                (&old(self).documents()[url@],),
                read,
            ),
            !old(self).documents().contains_key(url@) ==> read is None,
    {
        match map_remove(&mut self.docs, url) {
            Some(doc) => {
                let read = reader(&doc);
                map_insert(&mut self.docs, doc.url.clone(), doc);
                read
            },
            None => None,
        }
    }

    /// Open a new document at `url` with its contents as a parameter.
    ///
    /// The document is always stored. A document that was open at `url` is
    /// replaced. No other document is touched.
    pub fn open_doc(&mut self, url: String, text: &str) -> (opened: Result<(), DocumentError>)
        requires
            old(self).wf(),
        ensures
            final(self).wf(),
            opened is Ok,
            final(self).text_of(url@) == Some(text@),
            same_elsewhere(final(self).documents(), old(self).documents(), url@),
    {
        match Document::new_with_text(url.clone(), text) {
            Ok(doc) => {
                map_insert(&mut self.docs, url, doc);
                Ok(())
            },
            Err(e) => Err(e),
        }
    }

    /// Update the document at `url` with entirely new text.
    ///
    /// Says whether a document is open at `url`. Where none is, nothing
    /// changes: a change may arrive after the document was closed.
    pub fn update_document(&mut self, url: &str, text: &str) -> (found: bool)
        requires
            old(self).wf(),
        ensures
            final(self).wf(),
            found == old(self).documents().contains_key(url@),
            found ==> final(self).text_of(url@) == Some(text@) && same_elsewhere(
                final(self).documents(),
                old(self).documents(),
                url@,
            ),
            !found ==> final(self).documents() == old(self).documents(),
    {
        match map_remove(&mut self.docs, url) {
            Some(mut doc) => {
                doc.update_whole_text(text);
                map_insert(&mut self.docs, doc.url.clone(), doc);
                true
            },
            None => false,
        }
    }

    /// Apply the changes of one edit in order. Each carries the whole text,
    /// so the last one decides.
    pub fn apply_changes(&mut self, url: &str, changes: &Vec<String>) -> (found: bool)
        requires
            old(self).wf(),
        ensures
            final(self).wf(),
            found == old(self).documents().contains_key(url@),
            found ==> final(self).text_of(url@) == Some(
                last_text(old(self).documents()[url@].text(), changes@),
            ) && same_elsewhere(final(self).documents(), old(self).documents(), url@),
            !found ==> final(self).documents() == old(self).documents(),
    {
        match map_remove(&mut self.docs, url) {
            Some(mut doc) => {
                let mut i: usize = 0;
                while i < changes.len()
                    invariant
                        i <= changes.len(),
                        doc.wf(),
                        doc.url@ == url@,
                        doc.text() == last_text(
                            old(self).documents()[url@].text(),
                            changes@.take(i as int),
                        ),
                    decreases changes.len() - i,
                {
                    doc.update_whole_text(changes[i].as_str());
                    i = i + 1;
                }
                map_insert(&mut self.docs, doc.url.clone(), doc);
                true
            },
            None => false,
        }
    }

    /// Close the document at `url`. Says whether one was open there.
    pub fn close_doc(&mut self, url: &str) -> (found: bool)
        requires
            old(self).wf(),
        ensures
            final(self).wf(),
            found == old(self).documents().contains_key(url@),
            final(self).documents() == old(self).documents().remove(url@),
    {
        map_remove(&mut self.docs, url).is_some()
    }

    /// The semantic tokens of the document at `url`, for the whole document
    /// or for a range of lines. `None` where no document is open there, and
    /// no tokens where the highlighter gives no events.
    ///
    /// Where tokens come out for a range and the text places its byte
    /// offsets in order, they are a part of the tokens of the whole
    /// document: those with a byte in the lines of the range.
    ///
    /// Every document keeps its text and its tree; the others are not
    /// touched at all.
    pub fn semantic_tokens(
        &mut self,
        session: &Session,
        url: &str,
        range: Option<protocol::Range>,
    ) -> (tokens: Option<Vec<protocol::SemanticToken>>)
        requires
            old(self).wf(),
            session.wf(),
        ensures
            final(self).wf(),
            tokens is Some == old(self).documents().contains_key(url@),
            tokens matches Some(t) ==> t@ == tokens_of(
                *session,
                old(self).documents()[url@].text(),
                range,
            ) || t@.len() == 0,
            tokens matches Some(t) ==> (t@.len() > 0 && places_ordered(
                old(self).documents()[url@].text(),
            ) ==> range_selects(
                session.events(text_bytes(old(self).documents()[url@].text())),
                old(self).documents()[url@].text(),
                session.legend.indices(),
                range,
            )),
            final(self).documents().dom() == old(self).documents().dom(),
            final(self).text_of(url@) == old(self).text_of(url@),
            same_elsewhere(final(self).documents(), old(self).documents(), url@),
    {
        match map_remove(&mut self.docs, url) {
            Some(mut doc) => {
                let tokens = semantic_tokens(session, &mut doc, range);
                map_insert(&mut self.docs, doc.url.clone(), doc);
                Some(tokens)
            },
            None => None,
        }
    }

    /// The diagnostics of a check, made ready for the editor with the
    /// document at `url`. `None` where no document is open there. The store
    /// is left as it was.
    pub fn diagnostics(&mut self, session: &Session, url: &str, found: &Diagnostics) -> (shown:
        Option<Vec<protocol::Diagnostic>>)
        requires
            old(self).wf(),
        ensures
            final(self).documents() == old(self).documents(),
            shown is Some == old(self).documents().contains_key(url@),
            shown matches Some(list) ==> shows(
                list@,
                flattened(found.diagnostics@),
                *session,
                old(self).documents()[url@],
            ),
    {
        match map_remove(&mut self.docs, url) {
            Some(doc) => {
                let shown = lsp_diagnostics(session, &doc, found);
                map_insert(&mut self.docs, doc.url.clone(), doc);
                Some(shown)
            },
            None => None,
        }
    }

    /// Takes in one event of the editor and says what is to be done next.
    ///
    /// Opening stores the document and asks for its diagnostics. A change
    /// replaces the text and asks for nothing: diagnostics are not made anew
    /// at every keystroke. Saving asks for the diagnostics of the document.
    /// Closing takes the document out. Set-up and a change of settings ask
    /// for the diagnostics of every open document.
    pub fn handle(&mut self, event: Event) -> (action: Action)
        requires
            old(self).wf(),
        ensures
            final(self).wf(),
            match event {
                Event::Initialized => action is PublishAll && final(self).documents() == old(
                    self,
                ).documents(),
                Event::ConfigurationChanged => action is PublishAll && final(self).documents()
                    == old(self).documents(),
                Event::Opened { url, text } => {
                    &&& action matches Action::Publish(u) && u@ == url@
                    &&& same_elsewhere(final(self).documents(), old(self).documents(), url@)
                    &&& final(self).text_of(url@) == Some(text@)
                },
                Event::Changed { url, changes } => {
                    &&& action is Nothing
                    &&& final(self).documents().dom() == old(self).documents().dom()
                    &&& same_elsewhere(final(self).documents(), old(self).documents(), url@)
                    &&& old(self).documents().contains_key(url@) ==> final(self).text_of(url@)
                        == Some(last_text(old(self).documents()[url@].text(), changes@))
                },
                Event::Saved { url } => {
                    &&& action matches Action::Publish(u) && u@ == url@
                    &&& final(self).documents() == old(self).documents()
                },
                Event::Closed { url } => action is Nothing && final(self).documents() == old(
                    self,
                ).documents().remove(url@),
            },
    {
        match event {
            Event::Initialized => Action::PublishAll,
            Event::ConfigurationChanged => Action::PublishAll,
            Event::Opened { url, text } => {
                let _ = self.open_doc(url.clone(), text.as_str());
                Action::Publish(url)
            },
            Event::Changed { url, changes } => {
                self.apply_changes(url.as_str(), &changes);
                Action::Nothing
            },
            Event::Saved { url } => Action::Publish(url),
            Event::Closed { url } => {
                self.close_doc(url.as_str());
                Action::Nothing
            },
        }
    }
}

/// Documents do not see each other: whatever is opened or changed at one
/// URL, the document at any other URL is what it was.
pub proof fn lemma_documents_independent(
    before: Map<Seq<char>, Document>,
    after: Map<Seq<char>, Document>,
    changed: Seq<char>,
    other: Seq<char>,
)
    requires
        same_elsewhere(after, before, changed),
        other != changed,
    ensures
        after.contains_key(other) == before.contains_key(other),
        before.contains_key(other) ==> after[other] == before[other] && after[other].text()
            == before[other].text() && after[other].tree == before[other].tree,
{
}

} // verus!
