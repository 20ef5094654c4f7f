//! A self-contained tracker for callers that drive the session directly:
//! it couples the session table with snapshot derivation, so every content
//! update can immediately be followed by a fresh snapshot.

use vstd::prelude::*;
use crate::session::DiscordData;
use crate::session::FileView;
use crate::session::SessionState;
use crate::session::construct_data;
use crate::session::record_change_spec;
use crate::session::snapshot_spec;

verus! {

/// The session table, owned by the caller that updates it.
pub struct Context {
    pub state: SessionState,
}

impl Context {
    /// A fresh tracker with the repository link resolved by the caller.
    pub fn new(remote_url: Option<String>) -> (c: Context)
        ensures
            c.state@.files == Seq::<(Seq<char>, FileView)>::empty(),
            c.state@.current_file is None,
            c.state@.remote_url == remote_url.deep_view(),
            c.state.wf(),
    {
        let mut state = SessionState::new();
        state.remote_url = remote_url;
        Context { state }
    }

    /// Records the full content the editor reported for `filename`; an
    /// empty file name is refused and changes nothing.
    pub fn update_file_contents(&mut self, filename: &str, new_contents: &str) -> (r: Result<
        (),
        &'static str,
    >)
        ensures
            r is Ok <==> filename@.len() > 0,
            r matches Err(e) ==> e@ == "no filename"@,
            filename@.len() > 0 ==> final(self).state@ == record_change_spec(
                old(self).state@,
                filename@,
                new_contents@,
            ),
            filename@.len() == 0 ==> *final(self) == *old(self),
            old(self).state.wf() ==> final(self).state.wf(),
    {
        if filename.is_empty() {
            return Err("no filename");
        }
        self.state.record_change(filename.to_owned(), new_contents.to_owned());
        Ok(())
    }

    /// Derives the snapshot that the presence channel's driver delivers.
    pub fn send_discord(&self) -> (d: DiscordData)
        ensures
            d@ == snapshot_spec(self.state@),
    {
        construct_data(&self.state)
    }
}

} // verus!
