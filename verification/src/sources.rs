//! Source files loaded into the knowledge base.
//!
//! A [`Source`] is a piece of policy text with an optional filename. On
//! admission the knowledge base assigns it a fresh ID; [`Sources`] is the
//! store from ID to source.

use vstd::prelude::*;

use crate::alist::{idkey_find, idkey_get};

verus! {

/// A piece of policy text and the name of the file it came from, if any.
#[derive(Debug)]
pub struct Source {
    pub src: String,
    pub filename: Option<String>,
}

/// View of a source: its text and filename as character sequences.
pub struct SourceV {
    pub src: Seq<char>,
    pub filename: Option<Seq<char>>,
}

impl View for Source {
    type V = SourceV;

    open spec fn view(&self) -> SourceV {
        SourceV {
            src: self.src@,
            filename: match self.filename {
                Some(f) => Some(f@),
                None => None,
            },
        }
    }
}

impl Source {
    pub fn new(src: String, filename: Option<String>) -> (s: Source)
        ensures
            s.src == src,
            s.filename == filename,
    {
        Source { src, filename }
    }
}

impl Clone for Source {
    fn clone(&self) -> (r: Source)
        ensures
            r@ == self@,
    {
        Source {
            src: self.src.clone(),
            filename: match &self.filename {
                Some(f) => Some(f.clone()),
                None => None,
            },
        }
    }
}

/// The store of admitted sources, keyed by source ID.
#[derive(Debug)]
pub struct Sources {
    pub sources: Vec<(u64, Source)>,
}

impl Sources {
    /// An empty store.
    pub fn new() -> (s: Sources)
        ensures
            s.sources@.len() == 0,
    {
        Sources { sources: Vec::new() }
    }

    /// Record `source` under `id`. IDs are dispensed by the knowledge
    /// base and never reused, so a plain append keeps one entry per ID.
    pub fn add_source(&mut self, source: Source, id: u64)
        ensures
            final(self).sources@ == old(self).sources@.push((id, source)),
    {
        self.sources.push((id, source));
    }

    /// The source admitted under `id`, if any.
    pub fn get_source(&self, id: u64) -> (r: Option<Source>)
        ensures
            match r {
                Some(s) => exists|v: Source|
                    idkey_find(self.sources@, id) == Some(v) && s@ == v@,
                None => idkey_find(self.sources@, id) is None,
            },
    {
        match idkey_get(&self.sources, id) {
            Some(s) => Some(s.clone()),
            None => None,
        }
    }
}

} // verus!
