//! The streaming event sequencer: turns the decoded deltas of an upstream
//! stream into the client's event sequence, in the only legal order —
//! `message_start`, then content blocks (text, thinking or a tool call)
//! each bracketed by its start and stop, then `message_delta` and
//! `message_stop` — and never drops or rewrites a payload.
use vstd::prelude::*;

verus! {

/// Where the outbound event stream stands.
#[derive(Debug, Clone, Copy, PartialEq, Eq, Structural)]
pub enum SsePhase {
    /// Nothing sent yet.
    Idle,
    /// `message_start` sent, no block open.
    Open,
    /// A text block with this index is open.
    InText(u32),
    /// A thinking block with this index is open.
    InThinking(u32),
    /// `message_stop` sent; nothing more may follow.
    Done,
}

/// What one upstream chunk contributed after decoding.
pub enum SseItem {
    /// A piece of answer text.
    TextDelta(String),
    /// A piece of thinking text.
    ThinkingDelta(String),
    /// The signature of the current thinking block.
    ThinkingSignature(String),
    /// A complete upstream tool call.
    ToolCall { id: String, name: String, args_json: String },
    /// The upstream finished.
    End,
}

/// One outbound event.
#[derive(Debug, Clone, PartialEq)]
pub enum SseEvent {
    MessageStart,
    TextBlockStart(u32),
    ThinkingBlockStart(u32),
    ToolUseBlockStart(u32, String, String),
    TextDelta(u32, String),
    ThinkingDelta(u32, String),
    SignatureDelta(u32, String),
    InputJsonDelta(u32, String),
    ContentBlockStop(u32),
    MessageDelta,
    MessageStop,
}

/// An event is legal in a phase, and the phase it leads to.
pub open spec fn event_step(phase: SsePhase, ev: SseEvent) -> Option<SsePhase> {
    match (phase, ev) {
        (SsePhase::Idle, SseEvent::MessageStart) => Some(SsePhase::Open),
        (SsePhase::Open, SseEvent::TextBlockStart(i)) => Some(SsePhase::InText(i)),
        (SsePhase::Open, SseEvent::ThinkingBlockStart(i)) => Some(SsePhase::InThinking(i)),
        (SsePhase::Open, SseEvent::ToolUseBlockStart(i, id, name)) => Some(SsePhase::InText(i)),
        (SsePhase::InText(i), SseEvent::TextDelta(j, d)) => if i == j {
            Some(SsePhase::InText(i))
        } else {
            None
        },
        (SsePhase::InText(i), SseEvent::InputJsonDelta(j, d)) => if i == j {
            Some(SsePhase::InText(i))
        } else {
            None
        },
        (SsePhase::InThinking(i), SseEvent::ThinkingDelta(j, d)) => if i == j {
            Some(SsePhase::InThinking(i))
        } else {
            None
        },
        (SsePhase::InThinking(i), SseEvent::SignatureDelta(j, d)) => if i == j {
            Some(SsePhase::InThinking(i))
        } else {
            None
        },
        (SsePhase::InText(i), SseEvent::ContentBlockStop(j)) => if i == j {
            Some(SsePhase::Open)
        } else {
            None
        },
        (SsePhase::InThinking(i), SseEvent::ContentBlockStop(j)) => if i == j {
            Some(SsePhase::Open)
        } else {
            None
        },
        (SsePhase::Open, SseEvent::MessageDelta) => Some(SsePhase::Done),
        (SsePhase::Done, SseEvent::MessageStop) => Some(SsePhase::Done),
        _ => None,
    }
}

/// A whole event list is legal from `phase`, ending in `end`.
pub open spec fn events_legal(phase: SsePhase, evs: Seq<SseEvent>, end: SsePhase) -> bool
    decreases evs.len(),
{
    if evs.len() == 0 {
        end == phase
    } else {
        match event_step(phase, evs[0]) {
            Some(p2) => events_legal(p2, evs.skip(1), end),
            None => false,
        }
    }
}

/// The data an event carries, at the model level.
pub enum PayloadV {
    Text(Seq<char>),
    Thinking(Seq<char>),
    Signature(Seq<char>),
    ToolOpen(Seq<char>, Seq<char>),
    InputJson(Seq<char>),
}

/// The payloads an event list carries, in order. Pure bracketing events
/// carry none.
pub open spec fn payloads_of(evs: Seq<SseEvent>) -> Seq<PayloadV>
    decreases evs.len(),
{
    if evs.len() == 0 {
        Seq::empty()
    } else {
        let rest = payloads_of(evs.skip(1));
        match evs[0] {
            SseEvent::TextDelta(i, d) => seq![PayloadV::Text(d@)] + rest,
            SseEvent::ThinkingDelta(i, d) => seq![PayloadV::Thinking(d@)] + rest,
            SseEvent::SignatureDelta(i, d) => seq![PayloadV::Signature(d@)] + rest,
            SseEvent::ToolUseBlockStart(i, id, name) => seq![PayloadV::ToolOpen(id@, name@)]
                + rest,
            SseEvent::InputJsonDelta(i, d) => seq![PayloadV::InputJson(d@)] + rest,
            _ => rest,
        }
    }
}

/// The payloads one upstream item owes the client.
pub open spec fn item_payloads(item: SseItem) -> Seq<PayloadV> {
    match item {
        SseItem::TextDelta(d) => seq![PayloadV::Text(d@)],
        SseItem::ThinkingDelta(d) => seq![PayloadV::Thinking(d@)],
        SseItem::ThinkingSignature(d) => seq![PayloadV::Signature(d@)],
        SseItem::ToolCall { id, name, args_json } => seq![
            PayloadV::ToolOpen(id@, name@),
            PayloadV::InputJson(args_json@),
        ],
        SseItem::End => Seq::empty(),
    }
}

/// Every opened block immediately carries a delta of its own kind: the
/// sequencer never emits a spurious empty block.
pub open spec fn starts_carry_deltas(evs: Seq<SseEvent>) -> bool {
    forall|i: int|
        0 <= i < evs.len() ==> {
            &&& ((#[trigger] evs[i]) is TextBlockStart ==> i + 1 < evs.len() && evs[i
                + 1] is TextDelta)
            &&& (evs[i] is ThinkingBlockStart ==> i + 1 < evs.len() && (evs[i
                + 1] is ThinkingDelta || evs[i + 1] is SignatureDelta))
            &&& (evs[i] is ToolUseBlockStart ==> i + 1 < evs.len() && evs[i
                + 1] is InputJsonDelta)
        }
}

/// The sequencer: upstream items come in, legal events carrying exactly the
/// items' payloads go out.
pub struct SseSequencer {
    pub phase: SsePhase,
    pub next_index: u32,
}

impl SseSequencer {
    /// A fresh sequencer has sent nothing.
    pub fn new() -> (s: SseSequencer)
        ensures
            s.phase == SsePhase::Idle,
            s.next_index == 0,
    {
        SseSequencer { phase: SsePhase::Idle, next_index: 0 }
    }

    fn take_index(&mut self) -> (i: u32)
        ensures
            final(self).phase == old(self).phase,
            i == old(self).next_index,
    {
        let i = self.next_index;
        if self.next_index < 0xffff_ffff {
            self.next_index = self.next_index + 1;
        }
        i
    }

    /// Emits the events for one upstream item: legal from the old phase to
    /// the new one (`message_start` first, every delta in a matching open
    /// block, nothing after `message_stop`), carrying exactly the item's
    /// payloads — no delta is dropped, reordered or rewritten — and opening
    /// no block without a delta. `End` always finishes the stream.
    pub fn feed(&mut self, item: SseItem) -> (evs: Vec<SseEvent>)
        ensures
            events_legal(old(self).phase, evs@, final(self).phase),
            starts_carry_deltas(evs@),
            old(self).phase is Done ==> evs@.len() == 0,
            !(old(self).phase is Done) ==> payloads_of(evs@) == item_payloads(item),
            item is End && !(old(self).phase is Done) ==> final(self).phase is Done,
    {
        let ghost item0 = item;
        let mut evs: Vec<SseEvent> = Vec::new();
        if let SsePhase::Done = self.phase {
            return evs;
        }
        match item {
            SseItem::TextDelta(d) => {
                match self.phase {
                    SsePhase::InText(i) => {
                        evs.push(SseEvent::TextDelta(i, d));
                    },
                    SsePhase::InThinking(i) => {
                        evs.push(SseEvent::ContentBlockStop(i));
                        let n = self.take_index();
                        evs.push(SseEvent::TextBlockStart(n));
                        evs.push(SseEvent::TextDelta(n, d));
                        self.phase = SsePhase::InText(n);
                    },
                    SsePhase::Idle => {
                        evs.push(SseEvent::MessageStart);
                        let n = self.take_index();
                        evs.push(SseEvent::TextBlockStart(n));
                        evs.push(SseEvent::TextDelta(n, d));
                        self.phase = SsePhase::InText(n);
                    },
                    SsePhase::Open => {
                        let n = self.take_index();
                        evs.push(SseEvent::TextBlockStart(n));
                        evs.push(SseEvent::TextDelta(n, d));
                        self.phase = SsePhase::InText(n);
                    },
                    SsePhase::Done => {},
                }
            },
            SseItem::ThinkingDelta(d) => {
                match self.phase {
                    SsePhase::InThinking(i) => {
                        evs.push(SseEvent::ThinkingDelta(i, d));
                    },
                    SsePhase::InText(i) => {
                        evs.push(SseEvent::ContentBlockStop(i));
                        let n = self.take_index();
                        evs.push(SseEvent::ThinkingBlockStart(n));
                        evs.push(SseEvent::ThinkingDelta(n, d));
                        self.phase = SsePhase::InThinking(n);
                    },
                    SsePhase::Idle => {
                        evs.push(SseEvent::MessageStart);
                        let n = self.take_index();
                        evs.push(SseEvent::ThinkingBlockStart(n));
                        evs.push(SseEvent::ThinkingDelta(n, d));
                        self.phase = SsePhase::InThinking(n);
                    },
                    SsePhase::Open => {
                        let n = self.take_index();
                        evs.push(SseEvent::ThinkingBlockStart(n));
                        evs.push(SseEvent::ThinkingDelta(n, d));
                        self.phase = SsePhase::InThinking(n);
                    },
                    SsePhase::Done => {},
                }
            },
            SseItem::ThinkingSignature(d) => {
                match self.phase {
                    SsePhase::InThinking(i) => {
                        evs.push(SseEvent::SignatureDelta(i, d));
                    },
                    SsePhase::InText(i) => {
                        evs.push(SseEvent::ContentBlockStop(i));
                        let n = self.take_index();
                        evs.push(SseEvent::ThinkingBlockStart(n));
                        evs.push(SseEvent::SignatureDelta(n, d));
                        self.phase = SsePhase::InThinking(n);
                    },
                    SsePhase::Idle => {
                        evs.push(SseEvent::MessageStart);
                        let n = self.take_index();
                        evs.push(SseEvent::ThinkingBlockStart(n));
                        evs.push(SseEvent::SignatureDelta(n, d));
                        self.phase = SsePhase::InThinking(n);
                    },
                    SsePhase::Open => {
                        let n = self.take_index();
                        evs.push(SseEvent::ThinkingBlockStart(n));
                        evs.push(SseEvent::SignatureDelta(n, d));
                        self.phase = SsePhase::InThinking(n);
                    },
                    SsePhase::Done => {},
                }
            },
            SseItem::ToolCall { id, name, args_json } => {
                match self.phase {
                    SsePhase::InText(i) => {
                        evs.push(SseEvent::ContentBlockStop(i));
                    },
                    SsePhase::InThinking(i) => {
                        evs.push(SseEvent::ContentBlockStop(i));
                    },
                    SsePhase::Idle => {
                        evs.push(SseEvent::MessageStart);
                    },
                    _ => {},
                }
                let n = self.take_index();
                evs.push(SseEvent::ToolUseBlockStart(n, id, name));
                evs.push(SseEvent::InputJsonDelta(n, args_json));
                evs.push(SseEvent::ContentBlockStop(n));
                self.phase = SsePhase::Open;
            },
            SseItem::End => {
                match self.phase {
                    SsePhase::InText(i) => {
                        evs.push(SseEvent::ContentBlockStop(i));
                    },
                    SsePhase::InThinking(i) => {
                        evs.push(SseEvent::ContentBlockStop(i));
                    },
                    SsePhase::Idle => {
                        evs.push(SseEvent::MessageStart);
                    },
                    _ => {},
                }
                evs.push(SseEvent::MessageDelta);
                evs.push(SseEvent::MessageStop);
                self.phase = SsePhase::Done;
            },
        }
        proof {
            reveal_with_fuel(events_legal, 6);
            reveal_with_fuel(payloads_of, 6);
            assert(evs@.len() >= 2 ==> evs@.skip(1)[0] == evs@[1]);
            assert(evs@.len() >= 3 ==> evs@.skip(1).skip(1)[0] == evs@[2]);
            assert(evs@.len() >= 4 ==> evs@.skip(1).skip(1).skip(1)[0] == evs@[3]);
            assert(evs@.len() == 1 ==> evs@.skip(1) =~= Seq::<SseEvent>::empty());
            assert(evs@.len() == 2 ==> evs@.skip(1).skip(1) =~= Seq::<SseEvent>::empty());
            assert(evs@.len() == 3 ==> evs@.skip(1).skip(1).skip(1) =~= Seq::<SseEvent>::empty());
            assert(evs@.len() == 4 ==> evs@.skip(1).skip(1).skip(1).skip(1) =~= Seq::<
                SseEvent,
            >::empty());
            assert(payloads_of(evs@) =~= item_payloads(item0));
        }
        evs
    }
}

} // verus!
