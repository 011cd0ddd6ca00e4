//! The handle to one bar.
//!
//! A handle does not own its manager. Whoever holds one resolves the manager
//! on every call and passes what was found: the manager, or nothing once the
//! manager is gone. With nothing passed every operation is a no-op and every
//! question gets its default answer.

use crate::manager::Manager;
use crate::sink::Out;
use vstd::prelude::*;

verus! {

/// The handle to one bar of a manager.
#[derive(Debug)]
pub struct Bar {
    /// The bar's identifier in its manager's registry.
    pub id: u64,
}

impl Bar {
    /// Moves the bar on by `n` and asks for a frame at `now`.
    pub fn inc<O: Out>(&self, manager: Option<&mut Manager<O>>, n: u64, now: u64)
        requires
            manager matches Some(m) ==> m@.wf() && (m@.has(self.id) ==> m@.bar(self.id).pos + n
                <= u64::MAX),
        ensures
            manager matches Some(m) ==> final(m)@.wf() && Manager::applied(
                *m,
                *final(m),
                self.id,
                m@.bar(self.id).moved((m@.bar(self.id).pos + n) as u64),
                false,
                now,
            ),
    {
        match manager {
            Some(m) => {
                m.inc(self.id, n, now);
            },
            None => {},
        }
    }

    /// Sets the position and asks for a frame at `now`. The bar is due to be
    /// drawn whether or not the position is a new one.
    pub fn set_pos<O: Out>(&self, manager: Option<&mut Manager<O>>, pos: u64, now: u64)
        requires
            manager matches Some(m) ==> m@.wf(),
        ensures
            manager matches Some(m) ==> final(m)@.wf() && Manager::applied(
                *m,
                *final(m),
                self.id,
                m@.bar(self.id).moved(pos),
                false,
                now,
            ),
    {
        match manager {
            Some(m) => {
                m.set_pos(self.id, pos, now);
            },
            None => {},
        }
    }

    /// Sets the length and asks for a frame at `now`.
    pub fn set_len<O: Out>(&self, manager: Option<&mut Manager<O>>, len: u64, now: u64)
        requires
            manager matches Some(m) ==> m@.wf(),
        ensures
            manager matches Some(m) ==> final(m)@.wf() && Manager::applied(
                *m,
                *final(m),
                self.id,
                m@.bar(self.id).resized(len),
                false,
                now,
            ),
    {
        match manager {
            Some(m) => {
                m.set_len(self.id, len, now);
            },
            None => {},
        }
    }

    /// The position; zero when the manager is gone.
    pub fn get_pos<O: Out>(&self, manager: Option<&Manager<O>>) -> (pos: u64)
        requires
            manager matches Some(m) ==> m@.wf(),
        ensures
            pos == match manager {
                Some(m) => if m@.has(self.id) {
                    m@.bar(self.id).pos
                } else {
                    0
                },
                None => 0,
            },
    {
        match manager {
            Some(m) => m.get_pos(self.id),
            None => 0,
        }
    }

    /// The length; zero when the manager is gone.
    pub fn get_len<O: Out>(&self, manager: Option<&Manager<O>>) -> (len: u64)
        requires
            manager matches Some(m) ==> m@.wf(),
        ensures
            len == match manager {
                Some(m) => if m@.has(self.id) {
                    m@.bar(self.id).len
                } else {
                    0
                },
                None => 0,
            },
    {
        match manager {
            Some(m) => m.get_len(self.id),
            None => 0,
        }
    }

    /// Sets the position to the length, where it is not there, and forces a
    /// draw at `now`.
    pub fn finish<O: Out>(&self, manager: Option<&mut Manager<O>>, now: u64)
        requires
            manager matches Some(m) ==> m@.wf(),
        ensures
            manager matches Some(m) ==> final(m)@.wf() && Manager::finished(
                *m,
                *final(m),
                self.id,
                now,
            ),
    {
        match manager {
            Some(m) => {
                m.finish(self.id, now);
            },
            None => {},
        }
    }

    /// Finishes the bar as `finish` does, then gives it up as `release`
    /// does: two forced draws, the first with the bar at its length, the
    /// second without the bar.
    pub fn finish_and_drop<O: Out>(self, manager: Option<&mut Manager<O>>, now: u64)
        requires
            manager matches Some(m) ==> m@.wf(),
        ensures
            manager matches Some(m) ==> final(m)@.wf() && exists|between: Manager<O>|
                Manager::finished(*m, between, self.id, now) && Manager::released(
                    between,
                    *final(m),
                    self.id,
                    now,
                ),
    {
        match manager {
            Some(m) => {
                m.finish(self.id, now);
                let ghost between = *m;
                m.remove(self.id, now);
                assert(Manager::released(between, *m, self.id, now));
            },
            None => {},
        }
    }

    /// Gives the bar up: it leaves the registry, and a draw is forced at
    /// `now`. This is what the end of a handle's use comes to.
    pub fn release<O: Out>(self, manager: Option<&mut Manager<O>>, now: u64)
        requires
            manager matches Some(m) ==> m@.wf(),
        ensures
            manager matches Some(m) ==> final(m)@.wf() && Manager::released(
                *m,
                *final(m),
                self.id,
                now,
            ),
    {
        match manager {
            Some(m) => {
                m.remove(self.id, now);
            },
            None => {},
        }
    }

    /// Shows or hides the bar. Where that changes anything, a draw is forced
    /// at `now`; where it does not, nothing is done.
    pub fn set_visible<O: Out>(&self, manager: Option<&mut Manager<O>>, visible: bool, now: u64)
        requires
            manager matches Some(m) ==> m@.wf(),
        ensures
            manager matches Some(m) ==> final(m)@.wf() && if m@.has(self.id) && m@.bar(
                self.id,
            ).visible != visible {
                Manager::applied(
                    *m,
                    *final(m),
                    self.id,
                    m@.bar(self.id).showing(visible),
                    true,
                    now,
                )
            } else {
                *final(m) == *m
            },
    {
        match manager {
            Some(m) => {
                m.set_visible(self.id, visible, now);
            },
            None => {},
        }
    }

    /// Whether the bar is visible; false when the manager is gone.
    pub fn is_visible<O: Out>(&self, manager: Option<&Manager<O>>) -> (visible: bool)
        requires
            manager matches Some(m) ==> m@.wf(),
        ensures
            visible == match manager {
                Some(m) => m@.has(self.id) && m@.bar(self.id).visible,
                None => false,
            },
    {
        match manager {
            Some(m) => m.is_visible(self.id),
            None => false,
        }
    }

    /// Sets the message and asks for a frame at `now`.
    pub fn set_message<O: Out>(&self, manager: Option<&mut Manager<O>>, message: &str, now: u64)
        requires
            manager matches Some(m) ==> m@.wf(),
        ensures
            manager matches Some(m) ==> final(m)@.wf() && Manager::applied(
                *m,
                *final(m),
                self.id,
                m@.bar(self.id).saying(message@),
                false,
                now,
            ),
    {
        match manager {
            Some(m) => {
                m.set_message(self.id, message, now);
            },
            None => {},
        }
    }

    /// Compiles `template`, sets it as the bar's template, and asks for a
    /// frame at `now`.
    pub fn set_template<O: Out>(&self, manager: Option<&mut Manager<O>>, template: &str, now: u64)
        requires
            manager matches Some(m) ==> m@.wf(),
        ensures
            manager matches Some(m) ==> final(m)@.wf() && Manager::applied(
                *m,
                *final(m),
                self.id,
                m@.bar(self.id).styled(template@),
                false,
                now,
            ),
    {
        match manager {
            Some(m) => {
                m.set_template(self.id, template, now);
            },
            None => {},
        }
    }

    /// Whether the handle still reaches its bar: the manager is there and
    /// holds the bar.
    pub fn alive<O: Out>(&self, manager: Option<&Manager<O>>) -> (alive: bool)
        requires
            manager matches Some(m) ==> m@.wf(),
        ensures
            alive == match manager {
                Some(m) => m@.has(self.id),
                None => false,
            },
    {
        match manager {
            Some(m) => m.contains(self.id),
            None => false,
        }
    }
}

} // verus!
