//! The application state and the per-frame logic around it.
//!
//! This mirrors what the UI shell does each frame — snapshot the log
//! length, compute the labels and the visible row range, advance the
//! probe meter — and what it does at the session's edges: restore state
//! from a stored blob at startup and write one back at save points,
//! gated by the persistence toggle.

use vstd::prelude::*;
use crate::comment_log::CommentLog;
use crate::label::{
    comments_label, spec_comments_label, spec_ticks_label, spec_version_label, ticks_label,
    version_label,
};
use crate::list_view::{spec_visible_rows, visible_rows};
use crate::persist::{dec_state, decode_state, enc_state, encode_state};
use crate::reloader::{Reloadable, PROBE_INTERVAL};

verus! {

/// The application: the persistence toggle, the comment log, and the
/// reloader's view of the plugin. The plugin handle itself is transient
/// and lives in the shell; it is never serialized.
pub struct ManyCommentsApp {
    pub save_storage: bool,
    pub comments: CommentLog,
    pub dll: Reloadable,
}

/// What one frame needs from the state: the chrome texts, the row range
/// to lay out, and whether the shell should probe the plugin version.
pub struct FramePlan {
    pub comments_text: String,
    pub version_text: String,
    pub ticks_text: String,
    pub first_row: usize,
    pub last_row: usize,
    pub probe: bool,
}

impl ManyCommentsApp {
    /// A fresh session: empty log, saving off, reloader primed with the
    /// version read from the image opened at startup.
    pub fn fresh(initial_version: u64) -> (app: Self)
        ensures
            !app.save_storage,
            app.comments@ == Seq::<Seq<char>>::empty(),
            app.dll.ver == initial_version,
            app.dll.ticks == 0,
    {
        ManyCommentsApp {
            save_storage: false,
            comments: CommentLog::new(),
            dll: Reloadable::new(initial_version),
        }
    }

    /// Startup: restore the toggle and the log from the stored blob when
    /// one is present and decodes; on a missing backend or a malformed
    /// blob, defaults apply. The plugin handle is rebuilt from scratch.
    pub fn new(stored: Option<&Vec<u8>>, initial_version: u64) -> (app: Self)
        ensures
            app.dll.ver == initial_version,
            app.dll.ticks == 0,
            match stored {
                Option::None => !app.save_storage && app.comments@ == Seq::<Seq<char>>::empty(),
                Option::Some(blob) => match dec_state(blob@) {
                    Option::Some(dec) => app.save_storage == dec.0 && app.comments@ == dec.1,
                    Option::None => !app.save_storage && app.comments@ == Seq::<
                        Seq<char>,
                    >::empty(),
                },
            },
    {
        match stored {
            Option::None => Self::fresh(initial_version),
            Option::Some(blob) => match decode_state(blob) {
                Option::Some((save_storage, comments)) => ManyCommentsApp {
                    save_storage,
                    comments,
                    dll: Reloadable::new(initial_version),
                },
                Option::None => Self::fresh(initial_version),
            },
        }
    }

    /// Flips the persistence toggle; log and plugin are untouched.
    pub fn toggle_saves(&mut self)
        ensures
            final(self).save_storage == !old(self).save_storage,
            final(self).comments == old(self).comments,
            final(self).dll == old(self).dll,
    {
        self.save_storage = !self.save_storage;
    }

    /// What a save point writes: the blob for the current state when
    /// saving is enabled, and nothing at all otherwise — with the toggle
    /// off, no write to the persistence backend ever occurs.
    pub fn save(&self) -> (blob: Option<Vec<u8>>)
        ensures
            self.save_storage ==> blob is Some && blob.unwrap()@ == enc_state(
                true,
                self.comments@,
            ),
            !self.save_storage ==> blob is None,
    {
        if self.save_storage {
            Some(encode_state(true, &self.comments))
        } else {
            None
        }
    }

    /// Current number of comments.
    pub fn comments_len(&self) -> (n: usize)
        ensures
            n == self.comments@.len(),
    {
        self.comments.len()
    }

    /// One frame: snapshot the log length, compute the labels and the
    /// visible row range from it, then advance the probe meter (the
    /// reload step the shell runs after drawing). The log and the toggle
    /// are not touched; the diagnostics show the state as drawn, before
    /// the meter advances.
    pub fn frame_tick(&mut self, scroll_y: u64, viewport_height: u64) -> (plan: FramePlan)
        ensures
            final(self).save_storage == old(self).save_storage,
            final(self).comments == old(self).comments,
            final(self).dll.ver == old(self).dll.ver,
            plan.comments_text@ == spec_comments_label(old(self).comments@.len() as int),
            plan.version_text@ == spec_version_label(old(self).dll.ver as int),
            plan.ticks_text@ == spec_ticks_label(old(self).dll.ticks as int),
            (plan.first_row as int, plan.last_row as int) == spec_visible_rows(
                scroll_y as int,
                viewport_height as int,
                old(self).comments@.len() as int,
            ),
            plan.first_row <= plan.last_row <= old(self).comments@.len(),
            old(self).dll.ticks > 0 ==> !plan.probe && final(self).dll.ticks == old(
                self,
            ).dll.ticks - 1,
            old(self).dll.ticks == 0 ==> plan.probe && final(self).dll.ticks == PROBE_INTERVAL,
    {
        let n = self.comments.len();
        let comments_text = comments_label(n as u64);
        let version_text = version_label(self.dll.ver);
        let ticks_text = ticks_label(self.dll.ticks);
        let (first64, last64) = visible_rows(scroll_y, viewport_height, n as u64);
        proof {
            assert(last64 <= n);
        }
        let first_row = first64 as usize;
        let last_row = last64 as usize;
        let probe = self.dll.tick();
        FramePlan { comments_text, version_text, ticks_text, first_row, last_row, probe }
    }
}

/// Toggling saves twice returns to the original setting, and a state so
/// restored writes the very same blob: two toggles issue no net change
/// to stored state.
pub proof fn lemma_toggle_twice_no_net_change(save: bool, entries: Seq<Seq<char>>)
    ensures
        !!save == save,
        enc_state(!!save, entries) == enc_state(save, entries),
{
}

} // verus!
