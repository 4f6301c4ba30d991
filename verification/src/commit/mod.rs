//! Commit entries proposed by the AI, their validation, and the messages and
//! git arguments made from them.
pub mod service;

pub use service::format_message;

use vstd::prelude::*;

use crate::model::{Duplicate, Model};

verus! {

/// The model of a commit entry.
pub struct EntryModel {
    pub entry_type: Seq<char>,
    pub scope: Seq<char>,
    pub message: Seq<char>,
    pub files: Seq<Seq<char>>,
    pub detail: Seq<char>,
}

/// One commit proposed by the AI.
pub struct Entry {
    pub entry_type: String,
    pub scope: String,
    pub message: String,
    pub files: Vec<String>,
    pub detail: String,
}

impl Model for Entry {
    type M = EntryModel;

    open spec fn model(&self) -> EntryModel {
        EntryModel {
            entry_type: self.entry_type@,
            scope: self.scope@,
            message: self.message@,
            files: self.files.model(),
            detail: self.detail@,
        }
    }
}

impl Duplicate for Entry {
    fn duplicate(&self) -> (r: Self) {
        Entry {
            entry_type: self.entry_type.clone(),
            scope: self.scope.clone(),
            message: self.message.clone(),
            files: self.files.duplicate(),
            detail: self.detail.clone(),
        }
    }
}

/// The required fields are all present.
pub open spec fn entry_is_valid(e: EntryModel) -> bool {
    e.entry_type.len() > 0 && e.scope.len() > 0 && e.message.len() > 0
}

impl Entry {
    /// Checks that the required fields (type, scope, message) are filled.
    pub fn is_valid(&self) -> (r: bool)
        ensures
            r == entry_is_valid(self.model()),
    {
        !self.entry_type.as_str().is_empty() && !self.scope.as_str().is_empty()
            && !self.message.as_str().is_empty()
    }
}

/// The valid entries of a sequence, in order.
pub open spec fn valid_entries(s: Seq<EntryModel>) -> Seq<EntryModel>
    decreases s.len(),
{
    if s.len() == 0 {
        s
    } else if entry_is_valid(s.last()) {
        valid_entries(s.drop_last()).push(s.last())
    } else {
        valid_entries(s.drop_last())
    }
}

/// The AI's answer: an explanation and the proposed commits.
pub struct AiResponse {
    pub reason: String,
    pub data: Vec<Entry>,
}

impl AiResponse {
    /// The valid entries, in order, and the explanation.
    pub fn into_valid(self) -> (r: (Vec<Entry>, String))
        ensures
            r.0.model() == valid_entries(self.data.model()),
            r.1@ == self.reason@,
    {
        let data = self.data;
        let n = data.len();
        let mut out: Vec<Entry> = Vec::new();
        let mut i: usize = 0;
        assert(data.model().take(0) =~= Seq::<EntryModel>::empty());
        while i < n
            invariant
                i <= n == data@.len(),
                out.model() == valid_entries(data.model().take(i as int)),
            decreases n - i,
        {
            assert(data.model().take(i + 1).drop_last() =~= data.model().take(i as int));
            assert(data.model()[i as int] == data@[i as int].model());
            if data[i].is_valid() {
                let e = data[i].duplicate();
                let ghost before = out@;
                out.push(e);
                assert(out.model() =~= before.map_values(|x: Entry| x.model()).push(e.model()));
            }
            i = i + 1;
        }
        assert(data.model().take(n as int) =~= data.model());
        (out, self.reason)
    }
}

} // verus!
