//! A track: one streamable media item, identified by its source URL,
//! together with optional display metadata and the requesting user.
use vstd::prelude::*;

verus! {

/// One entry of a guild's queue. Immutable once enqueued, except that the
/// display title may be filled in later when metadata resolution finishes.
#[derive(Debug)]
pub struct Track {
    /// Validated absolute URL of the media source.
    pub url: String,
    /// Display title, absent until metadata has been resolved.
    pub title: Option<String>,
    /// Identifier of the user who enqueued the track.
    pub requested_by: u64,
}

impl Track {
    /// The name a reply shows for this track: the resolved title when one
    /// is present, otherwise the source URL.
    pub open spec fn spec_display_name(self) -> Seq<char> {
        match self.title {
            Some(t) => t@,
            None => self.url@,
        }
    }

    pub fn new(url: String, requested_by: u64) -> (r: Track)
        ensures
            r.url == url,
            r.title is None,
            r.requested_by == requested_by,
    {
        Track { url, title: None, requested_by }
    }

    /// Fill in the display title once metadata resolution has produced one.
    pub fn set_title(&mut self, title: String)
        ensures
            final(self).url == old(self).url,
            final(self).title == Some(title),
            final(self).requested_by == old(self).requested_by,
    {
        self.title = Some(title);
    }

    /// The name a reply shows for this track.
    pub fn display_name(&self) -> (r: String)
        ensures
            r@ == self.spec_display_name(),
    {
        match &self.title {
            Some(t) => t.clone(),
            None => self.url.clone(),
        }
    }
}

impl Clone for Track {
    fn clone(&self) -> (r: Self)
        ensures
            r == *self,
    {
        Track {
            url: self.url.clone(),
            title: match &self.title {
                Some(t) => Some(t.clone()),
                None => None,
            },
            requested_by: self.requested_by,
        }
    }
}

} // verus!
