//! The question that is put to the remote catalogue.

use crate::bits::bitmask;
use crate::components::multi_select_list::MultiSelectList;
use vstd::prelude::*;

verus! {

/// A request for a list of catalogue entries.
#[derive(Debug, PartialEq, Eq)]
pub struct API {
    /// The command that the catalogue is to carry out.
    pub cmd: String,
    /// The greatest number of entries to return.
    pub limit: u32,
    /// The number of entries to pass over first, if any.
    pub offset: Option<u32>,
    /// The types of entry to return, one binary digit for each, if the
    /// types are restricted.
    pub type_: Option<u32>,
}

impl API {
    /// A request with the given fields and no command yet.
    pub fn new(limit: u32, offset: Option<u32>, type_: Option<u32>) -> (r: Self)
        ensures
            r.cmd@ == Seq::<char>::empty(),
            r.limit == limit,
            r.offset == offset,
            r.type_ == type_,
    {
        API { cmd: String::new(), limit, offset, type_ }
    }

    /// The same request with `cmd` as its command.
    pub fn with_cmd(self, cmd: String) -> (r: Self)
        ensures
            r.cmd@ == cmd@,
            r.limit == self.limit,
            r.offset == self.offset,
            r.type_ == self.type_,
    {
        API { cmd, limit: self.limit, offset: self.offset, type_: self.type_ }
    }

    /// Makes `cmd` the command of the request.
    pub fn set_cmd(&mut self, cmd: String)
        ensures
            final(self).cmd@ == cmd@,
            final(self).limit == old(self).limit,
            final(self).offset == old(self).offset,
            final(self).type_ == old(self).type_,
    {
        self.cmd = cmd;
    }

    /// The request for a list of beatmaps of the types that `selection` has
    /// selected: position `i` of the list sets digit `i` of the types, digit
    /// 0 being the least significant. The types have 32 digits, so that no
    /// selected position may be 32 or more.
    pub fn from_selection(selection: &MultiSelectList, limit: u32, offset: Option<u32>) -> (r:
        Self)
        requires
            forall|i: usize| selection.selected_set().contains(i) ==> i < u32::BITS,
        ensures
            r.cmd@ == "beatmaplist"@,
            r.limit == limit,
            r.offset == offset,
            r.type_ == Some(bitmask(selection.selected_set(), 0, u32::BITS as nat) as u32),
    {
        API {
            cmd: "beatmaplist".to_string(),
            limit,
            offset,
            type_: Some(selection.bit_sum()),
        }
    }
}

impl Clone for API {
    /// A request with equal fields.
    fn clone(&self) -> (r: Self)
        ensures
            r.cmd@ == self.cmd@,
            r.limit == self.limit,
            r.offset == self.offset,
            r.type_ == self.type_,
    {
        API { cmd: self.cmd.clone(), limit: self.limit, offset: self.offset, type_: self.type_ }
    }
}

} // verus!
