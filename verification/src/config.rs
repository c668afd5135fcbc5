//! Configuration-document handling.
//!
//! The configuration is an XML document that binds each physical control's
//! name to a simulator-side command name, and declares the command names for
//! the rotary magneto selector, the starter pulse and the two gear helpers.
//! The document is reduced to a flat sequence of [`ConfigEvent`]s by the
//! `xml` crate; everything that interprets those events — the mode state
//! machine, the name lookups, the mapping tables — is ordinary verified
//! code over that sequence.

use vstd::prelude::*;

use crate::switch_constants::is_switch_bit;
use crate::switch_device::{name_map_wf, spec_lookup, str_eq};

verus! {

/// One event of the configuration document, as the XML reader hands them
/// out: an element start with its name and attributes, a text node, a
/// malformed-document marker, or anything else (ignored).
pub enum ConfigEvent {
    StartElement(String, Vec<(String, String)>),
    Characters(String),
    Error,
    Other,
}

/// The event sequence that the XML reader produces for a given document
/// text; it depends on the text alone.
pub uninterp spec fn xml_events_of(text: Seq<char>) -> Seq<ConfigEvent>;

/// Relies on `xml::reader::EventReader` (crate `xml-rs`): pulls the parse
/// events of the document in order, with whitespace-only text trimmed away;
/// the stream ends at the end of the document or at the first error, and
/// depends on the text alone.
#[verifier::external_body]
pub(crate) fn parse_xml_events(text: &str) -> (r: Vec<ConfigEvent>)
    ensures
        r@ == xml_events_of(text@),
{
    let config = xml::ParserConfig::new().trim_whitespace(true);
    xml::EventReader::new_with_config(text.as_bytes(), config)
        .into_iter()
        .map(|ev| match ev {
            Ok(xml::reader::XmlEvent::StartElement { name, attributes, .. }) => {
                ConfigEvent::StartElement(
                    name.local_name,
                    attributes.into_iter().map(|a| (a.name.local_name, a.value)).collect(),
                )
            },
            Ok(xml::reader::XmlEvent::Characters(data)) => ConfigEvent::Characters(data),
            Ok(_) => ConfigEvent::Other,
            Err(_) => ConfigEvent::Error,
        })
        .collect()
}

/// Why loading a configuration failed. Any of these indicates a setup
/// mistake: safe operation cannot proceed without a complete mapping.
#[derive(Debug)]
pub enum ConfigError {
    /// A `switch` element referenced a device-side name that the static
    /// name/bit table does not know.
    UnknownSwitchName(String),
    /// The document contains an element this format does not define.
    UnexpectedElement(String),
    /// Fewer than the required 13 distinct switch bindings were declared;
    /// carries how many there were.
    TooFewSwitches(usize),
}

/// Which declaration the loader is currently inside, set by the element
/// most recently opened.
#[derive(Clone, Copy)]
pub enum StartType {
    Plane,
    Switch,
    Magnetos,
    Starter,
    GearRetarget,
    GearPrimer,
}

/// The loader's state between two events: the current mode, the bit mask of
/// the switch element most recently opened, and everything gathered so far,
/// with command names as character sequences.
pub struct LoaderState {
    pub mode: StartType,
    pub switch: u32,
    pub switches: Seq<(u32, Seq<char>)>,
    pub magneto: Seq<char>,
    pub starter: Seq<char>,
    pub gear_retarget: Seq<char>,
    pub gear_primer: Seq<char>,
}

/// What a run of the loader over an event sequence comes to: the final
/// state, or the fatal mistake that stopped it.
pub enum LoadResult {
    Done(LoaderState),
    UnknownName(Seq<char>),
    BadElement(Seq<char>),
}

/// The loader's state before any event: no declarations gathered, mode as
/// if inside the document root.
pub open spec fn initial_loader_state() -> LoaderState {
    LoaderState {
        mode: StartType::Plane,
        switch: 0,
        switches: Seq::empty(),
        magneto: Seq::empty(),
        starter: Seq::empty(),
        gear_retarget: Seq::empty(),
        gear_primer: Seq::empty(),
    }
}

/// The loader state assembled from a loader's working values.
pub open spec fn loader_state(
    mode: StartType,
    switch: u32,
    switches: Seq<(u32, Seq<char>)>,
    magneto: Seq<char>,
    starter: Seq<char>,
    gear_retarget: Seq<char>,
    gear_primer: Seq<char>,
) -> LoaderState {
    LoaderState { mode, switch, switches, magneto, starter, gear_retarget, gear_primer }
}

/// The value of the last attribute named `name`, or the empty sequence if
/// no attribute carries that name.
pub open spec fn last_name_attr(attrs: Seq<(String, String)>) -> Seq<char>
    decreases attrs.len(),
{
    if attrs.len() == 0 {
        Seq::empty()
    } else if attrs.last().0@ == "name"@ {
        attrs.last().1@
    } else {
        last_name_attr(attrs.drop_last())
    }
}

/// Bind `key` to `val`: replace the first entry carrying `key`, or append a
/// new entry if none does.
pub open spec fn upsert(s: Seq<(u32, Seq<char>)>, key: u32, val: Seq<char>) -> Seq<
    (u32, Seq<char>),
>
    decreases s.len(),
{
    if s.len() == 0 {
        seq![(key, val)]
    } else if s[0].0 == key {
        seq![(key, val)] + s.drop_first()
    } else {
        seq![s[0]] + upsert(s.drop_first(), key, val)
    }
}

/// One loader step: how a single event moves the state, or which fatal
/// mistake it reveals.
pub open spec fn load_step(st: LoaderState, devmap: Seq<(Seq<char>, u32)>, ev: ConfigEvent) -> LoadResult {
    match ev {
        ConfigEvent::StartElement(name, attributes) => {
            if name@ == "switch"@ {
                let sname = last_name_attr(attributes@);
                match spec_lookup(devmap, sname) {
                    Some(x) => LoadResult::Done(
                        LoaderState { mode: StartType::Switch, switch: x, ..st },
                    ),
                    None => LoadResult::UnknownName(sname),
                }
            } else if name@ == "magnetos"@ {
                LoadResult::Done(LoaderState { mode: StartType::Magnetos, ..st })
            } else if name@ == "starter"@ {
                LoadResult::Done(LoaderState { mode: StartType::Starter, ..st })
            } else if name@ == "gear-retarget"@ {
                LoadResult::Done(LoaderState { mode: StartType::GearRetarget, ..st })
            } else if name@ == "gear-primer"@ {
                LoadResult::Done(LoaderState { mode: StartType::GearPrimer, ..st })
            } else if name@ == "plane"@ {
                LoadResult::Done(LoaderState { mode: StartType::Plane, ..st })
            } else {
                LoadResult::BadElement(name@)
            }
        },
        ConfigEvent::Characters(data) => LoadResult::Done(
            match st.mode {
                StartType::Plane => st,
                StartType::Switch => LoaderState {
                    switches: upsert(st.switches, st.switch, data@),
                    ..st
                },
                StartType::Magnetos => LoaderState { magneto: data@, ..st },
                StartType::Starter => LoaderState { starter: data@, ..st },
                StartType::GearRetarget => LoaderState { gear_retarget: data@, ..st },
                StartType::GearPrimer => LoaderState { gear_primer: data@, ..st },
            },
        ),
        ConfigEvent::Error => LoadResult::Done(st),
        ConfigEvent::Other => LoadResult::Done(st),
    }
}

/// Run the loader over a whole event sequence. A malformed-document marker
/// ends the run quietly with the state gathered so far; a fatal mistake
/// ends it with that mistake.
pub open spec fn load_events(
    st: LoaderState,
    devmap: Seq<(Seq<char>, u32)>,
    evs: Seq<ConfigEvent>,
) -> LoadResult
    decreases evs.len(),
{
    if evs.len() == 0 {
        LoadResult::Done(st)
    } else if evs[0] is Error {
        LoadResult::Done(st)
    } else {
        match load_step(st, devmap, evs[0]) {
            LoadResult::Done(st2) => load_events(st2, devmap, evs.drop_first()),
            r => r,
        }
    }
}

/// A switch table seen at the level of character sequences.
pub open spec fn switch_map_view(m: Seq<(u32, String)>) -> Seq<(u32, Seq<char>)> {
    m.map_values(|p: (u32, String)| (p.0, p.1@))
}

/// No two entries bind the same bit mask.
pub open spec fn unique_keys(s: Seq<(u32, Seq<char>)>) -> bool {
    forall|i: int, j: int|
        0 <= i < j < s.len() ==> (#[trigger] s[i]).0 != (#[trigger] s[j]).0
}

/// Every entry binds a mask of the generic switch path.
pub open spec fn switch_bit_keys(s: Seq<(u32, Seq<char>)>) -> bool {
    forall|i: int| 0 <= i < s.len() ==> is_switch_bit((#[trigger] s[i]).0)
}

/// When `key` already stands at position `i` (and nowhere earlier),
/// `upsert` is exactly an update at `i`.
pub proof fn lemma_upsert_is_update(s: Seq<(u32, Seq<char>)>, key: u32, val: Seq<char>, i: int)
    requires
        0 <= i < s.len(),
        s[i].0 == key,
        forall|j: int| 0 <= j < i ==> (#[trigger] s[j]).0 != key,
    ensures
        upsert(s, key, val) == s.update(i, (key, val)),
    decreases i,
{
    if i == 0 {
        assert(upsert(s, key, val) =~= s.update(0, (key, val)));
    } else {
        lemma_upsert_is_update(s.drop_first(), key, val, i - 1);
        assert(upsert(s, key, val) =~= s.update(i, (key, val)));
    }
}

/// When `key` stands nowhere in `s`, `upsert` is exactly a push.
pub proof fn lemma_upsert_is_push(s: Seq<(u32, Seq<char>)>, key: u32, val: Seq<char>)
    requires
        forall|j: int| 0 <= j < s.len() ==> (#[trigger] s[j]).0 != key,
    ensures
        upsert(s, key, val) == s.push((key, val)),
    decreases s.len(),
{
    if s.len() == 0 {
        assert(upsert(s, key, val) =~= s.push((key, val)));
    } else {
        lemma_upsert_is_push(s.drop_first(), key, val);
        assert(upsert(s, key, val) =~= s.push((key, val)));
    }
}

/// The value of the last attribute named `name` among `attrs`, or an empty
/// string if there is none.
pub(crate) fn find_name_attr(attrs: &Vec<(String, String)>) -> (r: String)
    ensures
        r@ == last_name_attr(attrs@),
{
    let mut sname = String::new();
    let n = attrs.len();
    proof {
        assert(attrs@.take(0) =~= Seq::<(String, String)>::empty());
    }
    for i in 0..n
        invariant
            n == attrs@.len(),
            sname@ == last_name_attr(attrs@.take(i as int)),
    {
        proof {
            assert(attrs@.take(i as int + 1).drop_last() =~= attrs@.take(i as int));
            assert(attrs@.take(i as int + 1).last() == attrs@[i as int]);
        }
        if str_eq(attrs[i].0.as_str(), "name") {
            sname = attrs[i].1.clone();
        }
    }
    proof {
        assert(attrs@.take(n as int) =~= attrs@);
    }
    sname
}

/// Bind `key` to `val` in the table: overwrite the first entry carrying
/// `key`, or append one.
pub(crate) fn upsert_switch(mapper: &mut Vec<(u32, String)>, key: u32, val: String)
    ensures
        switch_map_view(final(mapper)@) == upsert(switch_map_view(old(mapper)@), key, val@),
        unique_keys(switch_map_view(old(mapper)@)) ==> unique_keys(
            switch_map_view(final(mapper)@),
        ),
        switch_bit_keys(switch_map_view(old(mapper)@)) && is_switch_bit(key)
            ==> switch_bit_keys(switch_map_view(final(mapper)@)),
        final(mapper)@.len() <= old(mapper)@.len() + 1,
{
    let ghost v0 = switch_map_view(mapper@);
    let n = mapper.len();
    for i in 0..n
        invariant
            n == mapper@.len(),
            mapper@ == old(mapper)@,
            v0 == switch_map_view(mapper@),
            forall|j: int| 0 <= j < i ==> (#[trigger] v0[j]).0 != key,
    {
        if mapper[i].0 == key {
            proof {
                assert(v0[i as int] == (mapper@[i as int].0, mapper@[i as int].1@));
            }
            mapper[i] = (key, val);
            proof {
                let v1 = switch_map_view(mapper@);
                lemma_upsert_is_update(v0, key, val@, i as int);
                assert forall|j: int| 0 <= j < v1.len() implies (#[trigger] v1[j]) == v0.update(
                    i as int,
                    (key, val@),
                )[j] by {
                    assert(v1[j] == (mapper@[j].0, mapper@[j].1@));
                }
                assert(v1 =~= v0.update(i as int, (key, val@)));
                assert forall|j: int| 0 <= j < v1.len() implies (#[trigger] v1[j]).0 == v0[j].0 by {
                    assert(v1[j] == (mapper@[j].0, mapper@[j].1@));
                }
            }
            return ;
        }
    }
    proof {
        lemma_upsert_is_push(v0, key, val@);
    }
    mapper.push((key, val));
    proof {
        let v1 = switch_map_view(mapper@);
        assert forall|j: int| 0 <= j < v1.len() implies (#[trigger] v1[j]) == v0.push(
            (key, val@),
        )[j] by {
            assert(v1[j] == (mapper@[j].0, mapper@[j].1@));
        }
        assert(v1 =~= v0.push((key, val@)));
    }
}

/// A successful lookup in a well-formed name table yields a switch bit.
pub proof fn lemma_lookup_gives_switch_bit(m: Seq<(Seq<char>, u32)>, name: Seq<char>)
    requires
        name_map_wf(m),
        spec_lookup(m, name) is Some,
    ensures
        is_switch_bit(spec_lookup(m, name)->Some_0),
    decreases m.len(),
{
    if m.len() != 0 && !(m[0].0 == name) {
        assert(forall|i: int|
            0 <= i < m.drop_first().len() ==> #[trigger] m.drop_first()[i] == m[i + 1]);
        lemma_lookup_gives_switch_bit(m.drop_first(), name);
    }
}

} // verus!
