//! Frames exchanged with the browser, and the registry tree they carry.

use vstd::prelude::*;
use std::collections::HashMap;

use crate::clock::{duration_millis, since_unix_epoch, system_time_now};

verus! {

/// Lets `serde_json::Value` stand in signatures and fields; a JSON document is
/// carried through opaque.
#[verifier::external_type_specification]
#[verifier::external_body]
pub struct ExJsonValue(serde_json::Value);

/// `serde_json::Value`'s `Clone` is derived: the copy is the same JSON document.
pub assume_specification[ <serde_json::Value as Clone>::clone ](v: &serde_json::Value) -> (c: serde_json::Value)
    ensures
        c == *v,
;

/// Source language of an evaluation request.
#[derive(Debug, Clone, Copy, PartialEq, Eq, Structural)]
pub enum Lang {
    Rho,
    Pi,
}

impl Default for Lang {
    fn default() -> (lang: Lang)
        ensures
            lang == Lang::Rho,
    {
        Lang::Rho
    }
}

/// A frame the browser sends to the bridge.
#[derive(Debug, Clone)]
pub enum BrowserFrame {
    Eval { src: String, lang: Option<Lang> },
}

/// A frame the bridge sends to the browser.
#[derive(Debug, Clone)]
pub enum ServerFrame {
    Result { src: String, output: String, ts: u64 },
    Sup { addr: String, state: serde_json::Value, ts: u64 },
    Error { msg: String, ts: u64 },
    Tree { domains: Vec<Domain> },
}

/// A domain of the registry tree.
#[derive(Debug, Clone)]
pub struct Domain {
    pub name: String,
    pub registries: Vec<Registry>,
}

/// A registry inside a domain.
#[derive(Debug, Clone)]
pub struct Registry {
    pub name: String,
    pub objects: Vec<KaiObject>,
}

/// An object held by a registry.
#[derive(Debug, Clone)]
pub struct KaiObject {
    pub addr: String,
    pub kind: String,
    pub state: HashMap<String, serde_json::Value>,
}


/// What a [`BrowserFrame`] says, with its strings as character sequences.
pub enum BrowserFrameView {
    Eval { src: Seq<char>, lang: Option<Lang> },
}

impl View for BrowserFrame {
    type V = BrowserFrameView;

    open spec fn view(&self) -> BrowserFrameView {
        match self {
            BrowserFrame::Eval { src, lang } => BrowserFrameView::Eval { src: src@, lang: *lang },
        }
    }
}

/// What a [`ServerFrame`] says, with its strings as character sequences.
pub enum FrameView {
    Result { src: Seq<char>, output: Seq<char>, ts: u64 },
    Sup { addr: Seq<char>, state: serde_json::Value, ts: u64 },
    Error { msg: Seq<char>, ts: u64 },
    Tree { domains: Seq<DomainView> },
}

/// What a [`Domain`] holds.
pub struct DomainView {
    pub name: Seq<char>,
    pub registries: Seq<RegistryView>,
}

/// What a [`Registry`] holds.
pub struct RegistryView {
    pub name: Seq<char>,
    pub objects: Seq<ObjectView>,
}

/// What a [`KaiObject`] holds.
pub struct ObjectView {
    pub addr: Seq<char>,
    pub kind: Seq<char>,
    pub state: Map<String, serde_json::Value>,
}

impl View for KaiObject {
    type V = ObjectView;

    open spec fn view(&self) -> ObjectView {
        ObjectView { addr: self.addr@, kind: self.kind@, state: self.state@ }
    }
}

impl View for Registry {
    type V = RegistryView;

    open spec fn view(&self) -> RegistryView {
        RegistryView { name: self.name@, objects: self.objects@.map_values(|o: KaiObject| o@) }
    }
}

impl View for Domain {
    type V = DomainView;

    open spec fn view(&self) -> DomainView {
        DomainView {
            name: self.name@,
            registries: self.registries@.map_values(|r: Registry| r@),
        }
    }
}

impl View for ServerFrame {
    type V = FrameView;

    open spec fn view(&self) -> FrameView {
        match self {
            ServerFrame::Result { src, output, ts } => FrameView::Result {
                src: src@,
                output: output@,
                ts: *ts,
            },
            ServerFrame::Sup { addr, state, ts } => FrameView::Sup {
                addr: addr@,
                state: *state,
                ts: *ts,
            },
            ServerFrame::Error { msg, ts } => FrameView::Error { msg: msg@, ts: *ts },
            ServerFrame::Tree { domains } => FrameView::Tree {
                domains: domains@.map_values(|d: Domain| d@),
            },
        }
    }
}

/// The frame a browser gets first: an empty registry tree.
pub fn initial_tree() -> (frame: ServerFrame)
    ensures
        frame@ == (FrameView::Tree { domains: Seq::empty() }),
{
    let domains: Vec<Domain> = Vec::new();
    let frame = ServerFrame::Tree { domains };
    assert(frame@->Tree_domains =~= Seq::<DomainView>::empty());
    frame
}

/// What a timestamp is, given the whole milliseconds since the epoch
/// (`None` when the clock reads before the epoch).
pub open spec fn spec_epoch_ms(elapsed_ms: Option<u128>) -> u64 {
    match elapsed_ms {
        Some(m) => m as u64,
        None => 0,
    }
}

/// Turns the milliseconds elapsed since the Unix epoch into a timestamp: a
/// clock before the epoch reads as 0, and a count beyond `u64` is truncated.
pub fn epoch_ms(elapsed_ms: Option<u128>) -> (ms: u64)
    ensures
        ms == spec_epoch_ms(elapsed_ms),
{
    match elapsed_ms {
        Some(m) => m as u64,
        None => 0,
    }
}

/// A timestamp is the elapsed milliseconds modulo 2^64, and 0 for a clock
/// before the epoch; a count that fits in 64 bits is kept as it is.
pub proof fn lemma_epoch_ms_law(m: u128)
    ensures
        spec_epoch_ms(None) == 0,
        spec_epoch_ms(Some(m)) == m % 0x1_0000_0000_0000_0000,
        m <= u64::MAX ==> spec_epoch_ms(Some(m)) == m,
{
    assert((m as u64) as u128 == m % 0x1_0000_0000_0000_0000u128) by (bit_vector);
}

/// Milliseconds since the Unix epoch by the machine's clock, as
/// [`epoch_ms`] turns them into a timestamp.
pub fn now_ms() -> (ms: u64) {
    let now = system_time_now();
    let elapsed: Option<u128> = match since_unix_epoch(&now) {
        Some(d) => Some(duration_millis(&d)),
        None => None,
    };
    epoch_ms(elapsed)
}

} // verus!
