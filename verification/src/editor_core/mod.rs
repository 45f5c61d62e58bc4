use vstd::prelude::*;
use std::collections::HashMap;

use ropey::Rope;

use crate::pane::PaneID;

verus! {

broadcast use vstd::std_specs::hash::group_hash_axioms;

#[verifier::external_type_specification]
#[verifier::external_body]
pub struct ExRope(ropey::Rope);

#[verifier::external_type_specification]
#[verifier::external_body]
pub struct ExIoError(std::io::Error);

/// The text a rope holds.
pub uninterp spec fn rope_text(r: Rope) -> Seq<char>;

/// `ropey::Rope::new` creates an empty rope: one that holds no text.
pub assume_specification[ropey::Rope::new]() -> (r: Rope)
    ensures
        rope_text(r) == Seq::<char>::empty(),
;

/// Cloning a rope (its derived `Clone`, which shares the root node) gives
/// a rope holding the same text.
pub assume_specification[<ropey::Rope as Clone>::clone](r: &Rope) -> (c: Rope)
    ensures
        rope_text(c) == rope_text(*r),
;

/// Engine Errors
#[derive(Debug)]
pub enum Error {
    InsertError,
    DeleteError,
    FileExists,
    FileError(std::io::Error),
}

pub type Result<T> = std::result::Result<T, Error>;

/// A text document, possibly backed by a file.
#[derive(Debug, Clone)]
pub struct Document {
    /// file of the document
    path: Option<String>,
    /// string representation of the document
    content: Rope,
}

impl Document {
    /// The file of the document, if it has one.
    pub closed spec fn file(&self) -> Option<Seq<char>> {
        match self.path {
            Some(p) => Some(p@),
            None => None,
        }
    }

    /// The text of the document.
    pub closed spec fn text(&self) -> Seq<char> {
        rope_text(self.content)
    }

    /// A document without a file that can be written on, such as a scratch
    /// buffer. A file name is asked for when it is saved.
    pub fn name_less() -> (r: Result<Self>)
        ensures
            r matches Ok(d) && d.file() is None && d.text() == Seq::<char>::empty(),
    {
        Ok(Self { path: None, content: Rope::new() })
    }

    /// The document of the file at the canonical path `path`, holding the
    /// text read from the file, or no text when the file does not exist
    /// (`loaded` is `None`).
    pub fn from_path(path: String, loaded: Option<Rope>) -> (d: Self)
        ensures
            d.file() == Some(path@),
            d.text() == match loaded {
                Some(r) => rope_text(r),
                None => Seq::<char>::empty(),
            },
    {
        let content = match loaded {
            Some(r) => r,
            None => Rope::new(),
        };
        Self { path: Some(path), content }
    }

    /// The text of the document.
    pub fn content(&self) -> (r: &Rope)
        ensures
            rope_text(*r) == self.text(),
    {
        &self.content
    }

    /// The file of the document, if it has one.
    pub fn path(&self) -> (p: Option<&String>)
        ensures
            match p {
                Some(s) => self.file() == Some(s@),
                None => self.file() is None,
            },
    {
        match &self.path {
            Some(p) => Some(p),
            None => None,
        }
    }
}

/// The open documents, and which document each pane shows.
pub struct Engine {
    /// List of all open documents.
    docs: Vec<Document>,
    /// An association of panes to indices in docs vector.
    document_map: HashMap<u32, usize>,
}

impl Engine {
    /// The open documents, oldest first.
    pub closed spec fn documents(&self) -> Seq<Document> {
        self.docs@
    }

    /// Which document (an index into `documents()`) each pane shows, by the
    /// pane's identifier.
    pub closed spec fn pane_documents(&self) -> Map<u32, usize> {
        self.document_map@
    }

    /// Every pane shows an open document.
    #[verifier::type_invariant]
    spec fn wf(&self) -> bool {
        forall|p: u32| #[trigger] self.document_map@.contains_key(p) ==> self.document_map@[p] < self.docs@.len()
    }

    /// The document pane `pane` shows, if any.
    pub open spec fn document_of(&self, pane: PaneID) -> Option<Document> {
        if self.pane_documents().contains_key(pane@) {
            Some(self.documents()[self.pane_documents()[pane@] as int])
        } else {
            None
        }
    }

    /// An engine with no documents.
    pub fn new() -> (e: Self)
        ensures
            e.documents() == Seq::<Document>::empty(),
            e.pane_documents() == Map::<u32, usize>::empty(),
    {
        Self { docs: Vec::new(), document_map: HashMap::new() }
    }

    /// Opens a document on `pane`: `doc` is the document read from the file
    /// (or the error reading it gave). On success the document is added to
    /// the open ones and the pane shows it; on an error nothing changes and
    /// the error is returned.
    pub fn open_document(&mut self, pane: PaneID, doc: Result<Document>) -> (r: Result<()>)
        ensures
            match doc {
                Ok(d) => {
                    &&& r is Ok
                    &&& final(self).documents() == old(self).documents().push(d)
                    &&& final(self).pane_documents() == old(self).pane_documents().insert(pane@, old(self).documents().len() as usize)
                    // the pane shows the new document, every other pane
                    // what it showed before
                    &&& final(self).document_of(pane) == Some(d)
                    &&& forall|q: PaneID| q@ != pane@ ==> #[trigger] final(self).document_of(q) == old(self).document_of(q)
                },
                Err(e) => {
                    &&& r == Err::<(), Error>(e)
                    &&& final(self).documents() == old(self).documents()
                    &&& final(self).pane_documents() == old(self).pane_documents()
                },
            },
    {
        proof {
            use_type_invariant(&*self);
        }
        let ghost before = *self;
        let ghost given = doc;
        let index = match self.open_file(doc) {
            Ok(index) => index,
            Err(e) => return Err(e),
        };
        let mut map = HashMap::new();
        std::mem::swap(&mut map, &mut self.document_map);
        map.insert(pane.token(), index);
        assert forall|p: u32| #[trigger] map@.contains_key(p) implies map@[p] < self.docs@.len() by {
            if p != pane@ {
                assert(before.pane_documents().contains_key(p));
            }
        }
        self.document_map = map;
        proof {
            assert(self.documents()[before.documents().len() as int] == given->Ok_0);
            assert forall|q: PaneID| q@ != pane@ implies #[trigger] self.document_of(q) == before.document_of(q) by {
                if before.pane_documents().contains_key(q@) {
                    assert(self.documents()[before.pane_documents()[q@] as int] == before.documents()[before.pane_documents()[q@] as int]);
                }
            }
        }
        Ok(())
    }

    /// Adds the document read from a file to the open ones and returns its
    /// index; an error reading it is returned as is.
    fn open_file(&mut self, doc: Result<Document>) -> (r: Result<usize>)
        ensures
            final(self).pane_documents() == old(self).pane_documents(),
            match doc {
                Ok(d) => {
                    &&& r matches Ok(i) && i == old(self).documents().len()
                    &&& final(self).documents() == old(self).documents().push(d)
                },
                Err(e) => {
                    &&& r == Err::<usize, Error>(e)
                    &&& final(self).documents() == old(self).documents()
                },
            },
    {
        let doc = match doc {
            Ok(doc) => doc,
            Err(e) => return Err(e),
        };
        proof {
            use_type_invariant(&*self);
        }
        let index = self.docs.len();
        // the map is set aside while the list grows, so that every index it
        // holds stays in the list
        let mut map = HashMap::new();
        std::mem::swap(&mut map, &mut self.document_map);
        let mut docs = Vec::new();
        std::mem::swap(&mut docs, &mut self.docs);
        docs.push(doc);
        self.docs = docs;
        self.document_map = map;
        Ok(index)
    }

    /// The document pane `pane` shows, if any.
    pub fn get_document(&self, pane: PaneID) -> (d: Option<&Document>)
        ensures
            match d {
                Some(doc) => self.document_of(pane) == Some(*doc),
                None => self.document_of(pane) is None,
            },
    {
        proof {
            use_type_invariant(self);
        }
        match self.document_map.get(&pane.token()) {
            Some(index) => Some(&self.docs[*index]),
            None => None,
        }
    }
}

} // verus!
