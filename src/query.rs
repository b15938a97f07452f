use vstd::prelude::*;
use crate::domain::{model_of, Bookmark, BookmarkQuery};
use crate::event::lookup;
use crate::read_model::{lists, MemoryReadModel};

verus! {

/// The bookmark that `query` names, as the read model holds it now.
pub fn read_bookmark(query: BookmarkQuery, read_model: &MemoryReadModel) -> (r: Option<Bookmark>)
    requires
        read_model.wf(),
    ensures
        model_of(r) == lookup(read_model@, query.id@),
{
    read_model.get(&query)
}

/// Every bookmark the read model holds now, each once, in listing order.
pub fn read_bookmarks(read_model: &MemoryReadModel) -> (r: Vec<Bookmark>)
    requires
        read_model.wf(),
    ensures
        r@.map_values(|b: Bookmark| b@) == read_model.listing(),
        lists(r@.map_values(|b: Bookmark| b@), read_model@),
{
    read_model.list()
}

} // verus!
