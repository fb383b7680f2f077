//! The heads-up display's chat: the messages shown and the line being typed.
use crate::components::DoorKey;
use vstd::prelude::*;

verus! {

/// How many chat messages stay on screen.
pub const CHAT_HISTORY: usize = 10;

/// The chat box: whether it is open, the line being typed and the last
/// messages received.
pub struct Chat {
    pub show: bool,
    pub message: String,
    pub messages: Vec<String>,
}

/// The last `CHAT_HISTORY` of `messages`.
pub open spec fn last_messages(messages: Seq<String>) -> Seq<String> {
    if messages.len() > CHAT_HISTORY {
        messages.subrange(messages.len() - CHAT_HISTORY, messages.len() as int)
    } else {
        messages
    }
}

impl Default for Chat {
    fn default() -> (r: Chat)
        ensures
            !r.show,
            r.message@ == Seq::<char>::empty(),
            r.messages@ == Seq::<String>::empty(),
    {
        Chat { show: false, message: String::new(), messages: Vec::new() }
    }
}

impl Chat {
    /// Takes in the messages received this frame and keeps the last ones;
    /// true when anything arrived and the display needs redrawing.
    pub fn receive_messages(&mut self, incoming: Vec<String>) -> (r: bool)
        ensures
            r == (incoming@.len() > 0),
            final(self).messages@ == if incoming@.len() > 0 {
                last_messages(old(self).messages@ + incoming@)
            } else {
                old(self).messages@
            },
            final(self).show == old(self).show,
            final(self).message@ == old(self).message@,
    {
        let needs_update = incoming.len() > 0;
        let mut incoming = incoming;
        let ghost all = self.messages@ + incoming@;
        let mut msgs: Vec<String> = Vec::new();
        std::mem::swap(&mut msgs, &mut self.messages);
        msgs.append(&mut incoming);
        assert(msgs@ == all);
        assert(all.subrange(all.len() - msgs@.len(), all.len() as int) =~= all);
        if needs_update {
            while msgs.len() > CHAT_HISTORY
                invariant
                    all.len() > CHAT_HISTORY ==> msgs@.len() >= CHAT_HISTORY,
                    all.len() <= CHAT_HISTORY ==> msgs@.len() == all.len(),
                    all.len() >= msgs@.len(),
                    msgs@ == all.subrange(all.len() - msgs@.len(), all.len() as int),
                decreases msgs@.len(),
            {
                msgs.remove(0);
            }
        }
        proof {
            if needs_update && all.len() <= CHAT_HISTORY {
                assert(msgs@ =~= all);
            }
        }
        self.messages = msgs;
        needs_update
    }

    /// One frame of typing: `t` opens an empty, closed chat; escape closes
    /// it and drops the line; enter closes it and sends the line, which is
    /// returned.
    pub fn send_step(&mut self, pressed_t: bool, pressed_escape: bool, pressed_enter: bool) -> (r: Option<String>)
        ensures
            !old(self).show ==> {
                &&& r is None
                &&& final(self).show == (old(self).message@.len() == 0 && pressed_t)
                &&& final(self).message@ == old(self).message@
            },
            old(self).show ==> {
                &&& final(self).show == !(pressed_escape || pressed_enter)
                &&& (pressed_enter ==> (r matches Some(m) && m@ == (if pressed_escape {
                    Seq::<char>::empty()
                } else {
                    old(self).message@
                })))
                &&& (!pressed_enter ==> r is None)
                &&& final(self).message@ == if pressed_escape || pressed_enter {
                    Seq::<char>::empty()
                } else {
                    old(self).message@
                }
            },
            final(self).messages@ == old(self).messages@,
    {
        if !self.show {
            if self.message.as_str().is_empty() && pressed_t {
                self.show = true;
            }
            None
        } else {
            if pressed_escape {
                self.show = false;
                self.message = String::new();
            }
            if pressed_enter {
                self.show = false;
                let mut sent = String::new();
                std::mem::swap(&mut sent, &mut self.message);
                return Some(sent);
            }
            None
        }
    }
}

/// The label the HUD shows for a door key once picked up.
pub fn door_key_label(key: DoorKey) -> (r: &'static str)
    ensures
        r@ == match key {
            DoorKey::Red => "Red Key"@,
            DoorKey::Blue => "Blue Key"@,
            DoorKey::Yellow => "Yellow Key"@,
        },
{
    match key {
        DoorKey::Red => "Red Key",
        DoorKey::Blue => "Blue Key",
        DoorKey::Yellow => "Yellow Key",
    }
}

} // verus!
