//! The session manager: a stable, low-entropy fingerprint of a request,
//! used to keep one session on one account for prompt-cache hits.
use vstd::prelude::*;

use crate::models::{AnthropicRequest, AnthropicRequestV, MessageContent};
use vstd::wrapping::u64_specs;

verus! {

/// FNV-1a offset basis.
pub const FNV_OFFSET: u64 = 0xcbf29ce484222325;

/// FNV-1a prime.
pub const FNV_PRIME: u64 = 0x100000001b3;

/// One FNV-1a step.
pub open spec fn fnv_step(h: u64, c: char) -> u64 {
    u64_specs::wrapping_mul(h ^ (c as u64), FNV_PRIME)
}

/// FNV-1a over a character sequence, from the given state.
pub open spec fn fnv1a_from(h: u64, s: Seq<char>) -> u64
    decreases s.len(),
{
    if s.len() == 0 {
        h
    } else {
        fnv_step(fnv1a_from(h, s.drop_last()), s.last())
    }
}

/// The tool names of a request, concatenated in order (the tool-set
/// signature).
pub open spec fn tool_names_text(ts: Seq<crate::models::ToolDefV>) -> Seq<char>
    decreases ts.len(),
{
    if ts.len() == 0 {
        Seq::empty()
    } else {
        tool_names_text(ts.drop_last()) + ts.last().name
    }
}

/// The text the fingerprint is drawn from: the system instruction, the
/// first message's plain text (each empty when absent), and the tool-set
/// signature.
pub open spec fn fingerprint_text(r: AnthropicRequestV) -> Seq<char> {
    (match r.system {
        Some(s) => s,
        None => Seq::empty(),
    }) + (if r.messages.len() > 0 && r.messages[0].content is Text {
        r.messages[0].content->Text_0
    } else {
        Seq::empty()
    }) + (match r.tools {
        Some(ts) => tool_names_text(ts),
        None => Seq::empty(),
    })
}

/// The hexadecimal digit of a nibble.
pub open spec fn hex_digit(d: u64) -> char {
    if d == 0 {
        '0'
    } else if d == 1 {
        '1'
    } else if d == 2 {
        '2'
    } else if d == 3 {
        '3'
    } else if d == 4 {
        '4'
    } else if d == 5 {
        '5'
    } else if d == 6 {
        '6'
    } else if d == 7 {
        '7'
    } else if d == 8 {
        '8'
    } else if d == 9 {
        '9'
    } else if d == 10 {
        'a'
    } else if d == 11 {
        'b'
    } else if d == 12 {
        'c'
    } else if d == 13 {
        'd'
    } else if d == 14 {
        'e'
    } else {
        'f'
    }
}

/// The sixteen hex digits of a 64-bit value, most significant first.
pub open spec fn hex16(x: u64) -> Seq<char> {
    Seq::new(16, |i: int| hex_digit((x >> ((15 - i) * 4) as u64) & 0xf))
}

/// The session id of a request: the FNV-1a fingerprint of its head text, in
/// hex. Equal requests map to equal ids.
pub open spec fn session_id_spec(r: AnthropicRequestV) -> Seq<char> {
    hex16(fnv1a_from(FNV_OFFSET, fingerprint_text(r)))
}

fn hex_char_str(d: u64) -> (s: &'static str)
    requires
        d < 16,
    ensures
        s@.len() == 1,
        s@[0] == hex_digit(d),
{
    proof {
        reveal_strlit("0");
        reveal_strlit("1");
        reveal_strlit("2");
        reveal_strlit("3");
        reveal_strlit("4");
        reveal_strlit("5");
        reveal_strlit("6");
        reveal_strlit("7");
        reveal_strlit("8");
        reveal_strlit("9");
        reveal_strlit("a");
        reveal_strlit("b");
        reveal_strlit("c");
        reveal_strlit("d");
        reveal_strlit("e");
        reveal_strlit("f");
    }
    if d == 0 {
        "0"
    } else if d == 1 {
        "1"
    } else if d == 2 {
        "2"
    } else if d == 3 {
        "3"
    } else if d == 4 {
        "4"
    } else if d == 5 {
        "5"
    } else if d == 6 {
        "6"
    } else if d == 7 {
        "7"
    } else if d == 8 {
        "8"
    } else if d == 9 {
        "9"
    } else if d == 10 {
        "a"
    } else if d == 11 {
        "b"
    } else if d == 12 {
        "c"
    } else if d == 13 {
        "d"
    } else if d == 14 {
        "e"
    } else {
        "f"
    }
}

fn fnv_over(h0: u64, s: &str) -> (h: u64)
    ensures
        h == fnv1a_from(h0, s@),
{
    let n = s.unicode_len();
    let mut h = h0;
    let mut i: usize = 0;
    proof {
        assert(s@.take(0) =~= Seq::<char>::empty());
    }
    while i < n
        invariant
            n == s@.len(),
            i <= n,
            h == fnv1a_from(h0, s@.take(i as int)),
        decreases n - i,
    {
        let c = s.get_char(i);
        proof {
            assert(s@.take(i + 1).drop_last() =~= s@.take(i as int));
            assert(s@.take(i + 1).last() == s@[i as int]);
        }
        h = (h ^ (c as u64)).wrapping_mul(FNV_PRIME);
        i += 1;
    }
    proof {
        assert(s@.take(n as int) =~= s@);
    }
    h
}

/// Derives the stable session fingerprint of a request: equal head texts
/// give equal ids.
pub fn extract_session_id(r: &AnthropicRequest) -> (id: String)
    ensures
        id@ == session_id_spec(r.deep_view()),
{
    let ghost rv = r.deep_view();
    let sys: &str = match &r.system {
        Some(s) => s.as_str(),
        None => "",
    };
    let head: &str = if r.messages.len() > 0 {
        match &r.messages[0].content {
            MessageContent::Text(s) => s.as_str(),
            MessageContent::Blocks(_) => "",
        }
    } else {
        ""
    };
    proof {
        reveal_strlit("");
    }
    let ghost head_text = sys@ + head@;
    let h1 = fnv_over(FNV_OFFSET, sys);
    let mut h = fnv_over(h1, head);
    proof {
        lemma_fnv_concat(FNV_OFFSET, sys@, head@);
    }
    let ghost tools_v = match rv.tools {
        Some(ts) => ts,
        None => Seq::empty(),
    };
    match &r.tools {
        Some(ts) => {
            let tn = ts.len();
            let mut i: usize = 0;
            proof {
                assert(tool_names_text(tools_v.take(0)) =~= Seq::<char>::empty());
                assert(head_text + tool_names_text(tools_v.take(0)) =~= head_text);
            }
            while i < tn
                invariant
                    tn == ts@.len(),
                    ts.deep_view() == tools_v,
                    tools_v.len() == tn,
                    i <= tn,
                    h == fnv1a_from(FNV_OFFSET, head_text + tool_names_text(tools_v.take(i as int))),
                decreases tn - i,
            {
                let ghost pre = head_text + tool_names_text(tools_v.take(i as int));
                h = fnv_over(h, ts[i].name.as_str());
                proof {
                    assert(ts@[i as int].name@ == tools_v[i as int].name);
                    lemma_fnv_concat(FNV_OFFSET, pre, tools_v[i as int].name);
                    assert(tools_v.take(i + 1).drop_last() =~= tools_v.take(i as int));
                    assert(tools_v.take(i + 1).last() == tools_v[i as int]);
                    assert(pre + tools_v[i as int].name =~= head_text + tool_names_text(
                        tools_v.take(i + 1),
                    ));
                }
                i += 1;
            }
            proof {
                assert(tools_v.take(tn as int) =~= tools_v);
            }
        },
        None => {},
    }
    proof {
        assert(head_text + tool_names_text(tools_v) =~= fingerprint_text(rv));
        if rv.tools is None {
            assert(tool_names_text(tools_v) =~= Seq::<char>::empty());
            assert(head_text + tool_names_text(tools_v) =~= head_text);
        }
    }
    let mut out = String::new();
    let mut i: usize = 0;
    proof {
        assert(out@ =~= hex16(h).take(0));
    }
    while i < 16
        invariant
            i <= 16,
            out@ == hex16(h).take(i as int),
        decreases 16 - i,
    {
        let shift: u64 = ((15 - i) as u64) * 4;
        let d = (h >> shift) & 0xf;
        proof {
            assert(d < 16) by (bit_vector)
                requires
                    d == (h >> shift) & 0xf,
            ;
            assert(d == (h >> ((15 - i as int) * 4) as u64) & 0xf);
        }
        out.append(hex_char_str(d));
        proof {
            assert(out@ =~= hex16(h).take(i + 1));
        }
        i += 1;
    }
    proof {
        assert(out@ =~= hex16(h));
    }
    out
}

proof fn lemma_fnv_concat(h0: u64, a: Seq<char>, b: Seq<char>)
    ensures
        fnv1a_from(h0, a + b) == fnv1a_from(fnv1a_from(h0, a), b),
    decreases b.len(),
{
    if b.len() == 0 {
        assert(a + b =~= a);
    } else {
        lemma_fnv_concat(h0, a, b.drop_last());
        assert((a + b).drop_last() =~= a + b.drop_last());
        assert((a + b).last() == b.last());
    }
}

} // verus!
