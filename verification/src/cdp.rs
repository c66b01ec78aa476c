//! The remote-debugging wire format: the discovery URL, and the JSON
//! command envelopes sent over the debugger socket, with their string
//! values escaped. Every byte of every outgoing message is pinned down
//! here.

use vstd::prelude::*;

verus! {

use crate::search::spec_hex_char;
use crate::text::{digit_str, spec_dec, usize_to_string};
use vstd::string::{StrSliceExecFns, StringExecFns};

/// What one character contributes to a JSON string literal: itself,
/// unless it must be escaped.
pub open spec fn spec_escaped_char(c: char) -> Seq<char> {
    if c == '"' {
        seq!['\\', '"']
    } else if c == '\\' {
        seq!['\\', '\\']
    } else if c == '\n' {
        seq!['\\', 'n']
    } else if c == '\r' {
        seq!['\\', 'r']
    } else if c == '\t' {
        seq!['\\', 't']
    } else if c == '\x08' {
        seq!['\\', 'b']
    } else if c == '\x0c' {
        seq!['\\', 'f']
    } else if (c as u32) < 32 {
        seq!['\\', 'u', '0', '0', spec_hex_char((c as u32 >> 4) as u8), spec_hex_char(
            (c as u32 & 15) as u8,
        )]
    } else {
        seq![c]
    }
}

/// The body of a JSON string literal for `s`, character by character.
pub open spec fn spec_json_escaped(s: Seq<char>) -> Seq<char>
    decreases s.len(),
{
    if s.len() == 0 {
        Seq::empty()
    } else {
        spec_json_escaped(s.drop_last()) + spec_escaped_char(s.last())
    }
}

/// The uppercase hex digit for a value below sixteen.
fn hex_char_str(d: u8) -> (r: &'static str)
    requires
        d < 16,
    ensures
        r@ == seq![spec_hex_char(d)],
{
    if d < 10 {
        digit_str(d as usize)
    } else if d == 10 {
        proof {
            reveal_strlit("A");
        }
        assert("A"@ =~= seq![spec_hex_char(10)]);
        "A"
    } else if d == 11 {
        proof {
            reveal_strlit("B");
        }
        assert("B"@ =~= seq![spec_hex_char(11)]);
        "B"
    } else if d == 12 {
        proof {
            reveal_strlit("C");
        }
        assert("C"@ =~= seq![spec_hex_char(12)]);
        "C"
    } else if d == 13 {
        proof {
            reveal_strlit("D");
        }
        assert("D"@ =~= seq![spec_hex_char(13)]);
        "D"
    } else if d == 14 {
        proof {
            reveal_strlit("E");
        }
        assert("E"@ =~= seq![spec_hex_char(14)]);
        "E"
    } else {
        proof {
            reveal_strlit("F");
        }
        assert("F"@ =~= seq![spec_hex_char(15)]);
        "F"
    }
}

/// Escape `s` for inclusion in a JSON string literal.
pub fn json_escape(s: &str) -> (r: String)
    ensures
        r@ == spec_json_escaped(s@),
{
    let n = s.unicode_len();
    let mut out = String::new();
    let mut i: usize = 0;
    proof {
        assert(s@.take(0) =~= Seq::<char>::empty());
    }
    while i < n
        invariant
            0 <= i <= n,
            n == s@.len(),
            out@ == spec_json_escaped(s@.take(i as int)),
        decreases n - i,
    {
        let c = s.get_char(i);
        if c == '"' {
            proof {
                reveal_strlit("\\\"");
            }
            assert("\\\""@ =~= spec_escaped_char('"'));
            out.append("\\\"");
        } else if c == '\\' {
            proof {
                reveal_strlit("\\\\");
            }
            assert("\\\\"@ =~= spec_escaped_char('\\'));
            out.append("\\\\");
        } else if c == '\n' {
            proof {
                reveal_strlit("\\n");
            }
            assert("\\n"@ =~= spec_escaped_char('\n'));
            out.append("\\n");
        } else if c == '\r' {
            proof {
                reveal_strlit("\\r");
            }
            assert("\\r"@ =~= spec_escaped_char('\r'));
            out.append("\\r");
        } else if c == '\t' {
            proof {
                reveal_strlit("\\t");
            }
            assert("\\t"@ =~= spec_escaped_char('\t'));
            out.append("\\t");
        } else if c == '\x08' {
            proof {
                reveal_strlit("\\b");
            }
            assert("\\b"@ =~= spec_escaped_char('\x08'));
            out.append("\\b");
        } else if c == '\x0c' {
            proof {
                reveal_strlit("\\f");
            }
            assert("\\f"@ =~= spec_escaped_char('\x0c'));
            out.append("\\f");
        } else if (c as u32) < 32 {
            proof {
                reveal_strlit("\\u00");
            }
            out.append("\\u00");
            let code = c as u32;
            assert((code >> 4) < 16 && (code & 15) < 16) by (bit_vector)
                requires
                    code < 32,
            ;
            let hi = (code >> 4) as u8;
            let lo = (code & 15) as u8;
            out.append(hex_char_str(hi));
            out.append(hex_char_str(lo));
            assert(out@ =~= spec_json_escaped(s@.take(i as int)) + spec_escaped_char(c));
        } else {
            // an unescaped character passes through as a one-character string
            let piece = s.substring_char(i, i + 1);
            out.append(piece);
            assert(piece@ =~= spec_escaped_char(c));
        }
        proof {
            assert(s@.take(i + 1).drop_last() =~= s@.take(i as int));
            assert(s@.take(i + 1).last() == s@[i as int]);
            assert(out@ =~= spec_json_escaped(s@.take(i + 1)));
        }
        i += 1;
    }
    proof {
        assert(s@.take(n as int) =~= s@);
    }
    out
}

/// One command envelope of the protocol: an id, a method name, and a
/// params object.
pub open spec fn spec_envelope(id: nat, method: Seq<char>, params_json: Seq<char>) -> Seq<char> {
    "{\"id\":"@ + spec_dec(id) + ",\"method\":\""@ + method + "\",\"params\":"@ + params_json
        + "}"@
}

/// Build one command envelope. The method name is fixed by each caller;
/// the params object is already rendered JSON.
pub fn cdp_envelope(id: usize, method: &str, params_json: &str) -> (r: String)
    ensures
        r@ == spec_envelope(id as nat, method@, params_json@),
{
    let mut out = "{\"id\":".to_owned();
    out.append(usize_to_string(id).as_str());
    out.append(",\"method\":\"");
    out.append(method);
    out.append("\",\"params\":");
    out.append(params_json);
    out.append("}");
    proof {
        assert(out@ =~= spec_envelope(id as nat, method@, params_json@));
    }
    out
}

/// A params object holding one `url` string.
pub open spec fn spec_params_url(url: Seq<char>) -> Seq<char> {
    "{\"url\":\""@ + spec_json_escaped(url) + "\"}"@
}

/// A params object holding one `targetId` string.
pub open spec fn spec_params_target(target_id: Seq<char>) -> Seq<char> {
    "{\"targetId\":\""@ + spec_json_escaped(target_id) + "\"}"@
}

fn params_url(url: &str) -> (r: String)
    ensures
        r@ == spec_params_url(url@),
{
    let mut out = "{\"url\":\"".to_owned();
    out.append(json_escape(url).as_str());
    out.append("\"}");
    proof {
        assert(out@ =~= spec_params_url(url@));
    }
    out
}

fn params_target(target_id: &str) -> (r: String)
    ensures
        r@ == spec_params_target(target_id@),
{
    let mut out = "{\"targetId\":\"".to_owned();
    out.append(json_escape(target_id).as_str());
    out.append("\"}");
    proof {
        assert(out@ =~= spec_params_target(target_id@));
    }
    out
}

/// The first message of a listing exchange: target discovery must be
/// switched on before the browser reports targets.
pub fn msg_set_discover_targets() -> (r: String)
    ensures
        r@ == spec_envelope(1, "Target.setDiscoverTargets"@, "{\"discover\":true}"@),
{
    cdp_envelope(1, "Target.setDiscoverTargets", "{\"discover\":true}")
}

/// The second message of a listing exchange.
pub fn msg_set_auto_attach() -> (r: String)
    ensures
        r@ == spec_envelope(
            2,
            "Target.setAutoAttach"@,
            "{\"autoAttach\":true,\"waitForDebuggerOnStart\":false,\"flatten\":true}"@,
        ),
{
    cdp_envelope(
        2,
        "Target.setAutoAttach",
        "{\"autoAttach\":true,\"waitForDebuggerOnStart\":false,\"flatten\":true}",
    )
}

/// The third message of a listing exchange: ask for the targets.
pub fn msg_get_targets() -> (r: String)
    ensures
        r@ == spec_envelope(3, "Target.getTargets"@, "{}"@),
{
    cdp_envelope(3, "Target.getTargets", "{}")
}

/// The one-shot message opening a new tab at `url`.
pub fn msg_create_target(url: &str) -> (r: String)
    ensures
        r@ == spec_envelope(1, "Target.createTarget"@, spec_params_url(url@)),
{
    let params = params_url(url);
    cdp_envelope(1, "Target.createTarget", params.as_str())
}

/// The one-shot message activating the tab with this target id.
pub fn msg_activate_target(target_id: &str) -> (r: String)
    ensures
        r@ == spec_envelope(1, "Target.activateTarget"@, spec_params_target(target_id@)),
{
    let params = params_target(target_id);
    cdp_envelope(1, "Target.activateTarget", params.as_str())
}

/// The one-shot message closing the tab with this target id.
pub fn msg_close_target(target_id: &str) -> (r: String)
    ensures
        r@ == spec_envelope(1, "Target.closeTarget"@, spec_params_target(target_id@)),
{
    let params = params_target(target_id);
    cdp_envelope(1, "Target.closeTarget", params.as_str())
}

/// The discovery URL of the local debugging endpoint for a port.
pub fn version_url(port: u16) -> (r: String)
    ensures
        r@ == "http://localhost:"@ + spec_dec(port as nat) + "/json/version"@,
{
    let mut out = "http://localhost:".to_owned();
    out.append(usize_to_string(port as usize).as_str());
    out.append("/json/version");
    proof {
        assert(out@ =~= "http://localhost:"@ + spec_dec(port as nat) + "/json/version"@);
    }
    out
}

} // verus!
