//! The `SUP <addr> <json>` state-update lines that KAI emits.

use vstd::prelude::*;
use vstd::string::*;

use crate::protocol::{now_ms, FrameView, ServerFrame};
use crate::text::chars_of;

verus! {

/// What `serde_json::from_str::<serde_json::Value>` gives for a text: the
/// document when the text is one complete JSON value, `None` otherwise.
pub uninterp spec fn json_parse(text: Seq<char>) -> Option<serde_json::Value>;

/// Calls `serde_json::from_str::<serde_json::Value>`; the error becomes `None`.
/// The claim is only that the outcome is a function of the text, named
/// [`json_parse`]; which texts are JSON is serde_json's grammar and is not
/// restated here.
#[verifier::external_body]
fn json_from_str(text: &str) -> (parsed: Option<serde_json::Value>)
    ensures
        parsed == json_parse(text@),
{
    serde_json::from_str::<serde_json::Value>(text).ok()
}

/// The four characters every update line starts with.
pub open spec fn sup_prefix() -> Seq<char> {
    seq!['S', 'U', 'P', ' ']
}

/// `line` is `"SUP "`, then `addr`, which is not empty and holds no space,
/// then one space, then `json`.
pub open spec fn is_sup_split(line: Seq<char>, addr: Seq<char>, json: Seq<char>) -> bool {
    &&& line == sup_prefix() + addr + seq![' '] + json
    &&& addr.len() > 0
    &&& !addr.contains(' ')
}

/// The address and the JSON text of an update line, split at the first space
/// after the prefix; `None` when `line` has no such shape (in particular when
/// the address is empty).
pub open spec fn sup_parts(line: Seq<char>) -> Option<(Seq<char>, Seq<char>)> {
    if exists|p: (Seq<char>, Seq<char>)| is_sup_split(line, p.0, p.1) {
        Some(choose|p: (Seq<char>, Seq<char>)| is_sup_split(line, p.0, p.1))
    } else {
        None
    }
}

/// The frame an update line stands for, stamped `ts`: `None` unless the line
/// has the update shape and its JSON text parses.
pub open spec fn spec_sup_frame(line: Seq<char>, ts: u64) -> Option<FrameView> {
    match sup_parts(line) {
        Some((addr, json)) => match json_parse(json) {
            Some(state) => Some(FrameView::Sup { addr, state, ts }),
            None => None,
        },
        None => None,
    }
}

/// An update line splits in one way only.
pub proof fn lemma_sup_split_unique(
    line: Seq<char>,
    a1: Seq<char>,
    j1: Seq<char>,
    a2: Seq<char>,
    j2: Seq<char>,
)
    requires
        is_sup_split(line, a1, j1),
        is_sup_split(line, a2, j2),
    ensures
        a1 == a2,
        j1 == j2,
{
    assert(line[4 + a1.len() as int] == ' ');
    assert(line[4 + a2.len() as int] == ' ');
    if a1.len() < a2.len() {
        assert(a2[a1.len() as int] == line[4 + a1.len() as int]);
        assert(a2.contains(' '));
    } else if a2.len() < a1.len() {
        assert(a1[a2.len() as int] == line[4 + a2.len() as int]);
        assert(a1.contains(' '));
    }
    assert(a1 =~= line.subrange(4, 4 + a1.len() as int));
    assert(a2 =~= line.subrange(4, 4 + a2.len() as int));
    assert(j1 =~= line.skip(5 + a1.len() as int));
    assert(j2 =~= line.skip(5 + a2.len() as int));
}

/// Splits an update line into its address and its JSON text (see
/// [`sup_parts`]).
pub fn split_sup(line: &str) -> (parts: Option<(String, String)>)
    ensures
        match parts {
            Some((addr, json)) => sup_parts(line@) == Some((addr@, json@)),
            None => sup_parts(line@) is None,
        },
{
    let chars = chars_of(line);
    let n = chars.len();
    if n < 4 || chars[0] != 'S' || chars[1] != 'U' || chars[2] != 'P' || chars[3] != ' ' {
        proof {
            if exists|p: (Seq<char>, Seq<char>)| is_sup_split(line@, p.0, p.1) {
                let (a, j) = choose|p: (Seq<char>, Seq<char>)| is_sup_split(line@, p.0, p.1);
                assert(line@[0] == 'S' && line@[1] == 'U' && line@[2] == 'P' && line@[3] == ' ');
            }
        }
        return None;
    }
    let mut i: usize = 4;
    while i < n && chars[i] != ' '
        invariant
            4 <= i <= n,
            n == chars@.len(),
            chars@ == line@,
            forall|k: int| 4 <= k < i ==> line@[k] != ' ',
        decreases n - i,
    {
        i = i + 1;
    }
    if i == 4 || i == n {
        proof {
            if exists|p: (Seq<char>, Seq<char>)| is_sup_split(line@, p.0, p.1) {
                let (a, j) = choose|p: (Seq<char>, Seq<char>)| is_sup_split(line@, p.0, p.1);
                assert(line@[4 + a.len() as int] == ' ');
            }
        }
        return None;
    }
    let addr = line.substring_char(4, i).to_owned();
    let json = line.substring_char(i + 1, n).to_owned();
    proof {
        assert(sup_prefix() =~= line@.take(4));
        assert(!addr@.contains(' ')) by {
            if addr@.contains(' ') {
                let k = choose|k: int| 0 <= k < addr@.len() && addr@[k] == ' ';
                assert(line@[4 + k] == ' ');
            }
        }
        assert(line@ =~= sup_prefix() + addr@ + seq![' '] + json@);
        let w = (addr@, json@);
        assert(is_sup_split(line@, w.0, w.1));
        let p = choose|p: (Seq<char>, Seq<char>)| is_sup_split(line@, p.0, p.1);
        lemma_sup_split_unique(line@, addr@, json@, p.0, p.1);
    }
    Some((addr, json))
}

/// The update frame for an address and what parsing its JSON text gave:
/// a frame stamped `ts` when the text parsed, `None` otherwise.
pub fn sup_frame_from(addr: String, parsed: Option<serde_json::Value>, ts: u64) -> (frame: Option<ServerFrame>)
    ensures
        match parsed {
            Some(state) => frame matches Some(f) && f@ == (FrameView::Sup { addr: addr@, state, ts }),
            None => frame is None,
        },
{
    match parsed {
        Some(state) => Some(ServerFrame::Sup { addr, state, ts }),
        None => None,
    }
}

/// The update frame for `line`, stamped `ts` (see [`spec_sup_frame`]).
pub fn sup_frame_at(line: &str, ts: u64) -> (frame: Option<ServerFrame>)
    ensures
        match frame {
            Some(f) => spec_sup_frame(line@, ts) == Some(f@),
            None => spec_sup_frame(line@, ts) is None,
        },
{
    match split_sup(line) {
        Some((addr, json)) => {
            let parsed = json_from_str(json.as_str());
            sup_frame_from(addr, parsed, ts)
        },
        None => None,
    }
}

/// A line built as `"SUP "`, an address that is not empty and holds no space,
/// one space, and a JSON text stands for the update frame of that address and
/// of the document the text parses to; when the text does not parse, it
/// stands for no frame.
pub proof fn lemma_sup_frame_of_parts(addr: Seq<char>, json: Seq<char>, ts: u64)
    requires
        addr.len() > 0,
        !addr.contains(' '),
    ensures
        spec_sup_frame(sup_prefix() + addr + seq![' '] + json, ts) == match json_parse(json) {
            Some(state) => Some(FrameView::Sup { addr, state, ts }),
            None => None::<FrameView>,
        },
{
    let line = sup_prefix() + addr + seq![' '] + json;
    let w = (addr, json);
    assert(is_sup_split(line, w.0, w.1));
    let p = choose|p: (Seq<char>, Seq<char>)| is_sup_split(line, p.0, p.1);
    lemma_sup_split_unique(line, addr, json, p.0, p.1);
}

/// Only lines that start with the four characters `S`, `U`, `P`, space, have
/// a character other than a space right after them, and have a space later
/// on can stand for an update frame; the address of the frame is what lies
/// between the prefix and that first later space, and it holds no space.
pub proof fn lemma_sup_shape(line: Seq<char>, ts: u64)
    ensures
        spec_sup_frame(line, ts) is Some ==> {
            &&& line.len() >= 6
            &&& line[0] == 'S' && line[1] == 'U' && line[2] == 'P' && line[3] == ' '
            &&& line[4] != ' '
            &&& spec_sup_frame(line, ts)->Some_0 matches FrameView::Sup { addr, state: _, ts: t }
                && t == ts && addr.len() > 0 && addr == line.subrange(4, 4 + addr.len() as int)
                && line[4 + addr.len() as int] == ' ' && !addr.contains(' ')
        },
{
    if spec_sup_frame(line, ts) is Some {
        let p = choose|p: (Seq<char>, Seq<char>)| is_sup_split(line, p.0, p.1);
        let (a, j) = p;
        assert(line[4] == a[0]);
        assert(a.contains(a[0]) ==> a[0] != ' ');
        assert(a.contains(a[0]));
        assert(line[4 + a.len() as int] == ' ');
        assert(a =~= line.subrange(4, 4 + a.len() as int));
    }
}

/// Parses a `SUP <addr> <json>` line (the address is what lies between the
/// prefix and the next space, and must not be empty) into an update frame
/// stamped with the current time; `None` for any other line, and when the
/// JSON text does not parse.
pub fn parse_sup(line: &str) -> (frame: Option<ServerFrame>)
    ensures
        match frame {
            Some(f) => f@ is Sup && spec_sup_frame(line@, f@->Sup_ts) == Some(f@),
            None => forall|ts: u64| spec_sup_frame(line@, ts) is None,
        },
{
    let ts = now_ms();
    sup_frame_at(line, ts)
}

} // verus!
