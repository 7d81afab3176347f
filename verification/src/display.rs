//! The display directory parser: turns the captured text of a
//! hardware-detection run into an ordered list of device records.
//!
//! The text is read line by line. A line `Display <id>` (that does not go
//! on to say `not found`) opens a new record; `DRM connector:`, `Model:`
//! and `Monitor:` lines fill in its fields, `Model:` taking precedence
//! over `Monitor:`. A record without a connector is dropped: it could
//! never take part in address resolution. Unrecognized lines are ignored
//! and parsing never fails.

use vstd::prelude::*;
use vstd::string::*;
use crate::text::{contains_seq, split_seq, str_contains, str_has_prefix, str_skip, str_split,
    str_trim, trim_seq};

verus! {

/// One detected device record.
pub struct Display {
    /// The hardware-control-bus address the detection tool assigned.
    pub id: String,
    /// A human-readable name, synthesized as `Display <id>` when the
    /// detection text gives none.
    pub name: String,
    /// The kernel-level connector identifier.
    pub drm_connector: String,
}

/// The mathematical image of a record.
pub ghost struct DisplayModel {
    pub id: Seq<char>,
    pub name: Seq<char>,
    pub drm_connector: Seq<char>,
}

impl View for Display {
    type V = DisplayModel;

    open spec fn view(&self) -> DisplayModel {
        DisplayModel { id: self.id@, name: self.name@, drm_connector: self.drm_connector@ }
    }
}

impl DeepView for Display {
    type V = DisplayModel;

    open spec fn deep_view(&self) -> DisplayModel {
        self@
    }
}

/// The three accumulator slots the parser carries between lines.
pub ghost struct ParseAcc {
    pub id: Option<Seq<char>>,
    pub name: Option<Seq<char>>,
    pub connector: Option<Seq<char>>,
}

pub open spec fn empty_acc() -> ParseAcc {
    ParseAcc { id: None, name: None, connector: None }
}

pub open spec fn acc_of(id: Option<String>, name: Option<String>, connector: Option<String>)
    -> ParseAcc {
    ParseAcc { id: id.deep_view(), name: name.deep_view(), connector: connector.deep_view() }
}

/// The records a flushed accumulator contributes: one, when both the id
/// and the connector slot are filled, with the name defaulted; none
/// otherwise.
pub open spec fn flush_acc(acc: ParseAcc) -> Seq<DisplayModel> {
    match (acc.id, acc.connector) {
        (Some(id), Some(conn)) => seq![
            DisplayModel {
                id: id,
                name: match acc.name {
                    Some(n) => n,
                    None => "Display "@ + id,
                },
                drm_connector: conn,
            },
        ],
        _ => Seq::<DisplayModel>::empty(),
    }
}

/// A trimmed line that opens a new record.
pub open spec fn is_display_line(t: Seq<char>) -> bool {
    "Display "@.is_prefix_of(t)
        && !contains_seq(t.skip("Display "@.len() as int), "not found"@)
}

/// What the accumulator becomes after one raw line.
pub open spec fn step_acc(line: Seq<char>, acc: ParseAcc) -> ParseAcc {
    let t = trim_seq(line);
    if is_display_line(t) {
        ParseAcc {
            id: Some(t.skip("Display "@.len() as int)),
            name: None,
            connector: None,
        }
    } else if "DRM connector:"@.is_prefix_of(t) {
        ParseAcc {
            id: acc.id,
            name: acc.name,
            connector: Some(trim_seq(t.skip("DRM connector:"@.len() as int))),
        }
    } else if "Model:"@.is_prefix_of(t) {
        ParseAcc {
            id: acc.id,
            name: Some(trim_seq(t.skip("Model:"@.len() as int))),
            connector: acc.connector,
        }
    } else if acc.name is None && "Monitor:"@.is_prefix_of(t) {
        ParseAcc {
            id: acc.id,
            name: Some(trim_seq(t.skip("Monitor:"@.len() as int))),
            connector: acc.connector,
        }
    } else {
        acc
    }
}

/// The records one raw line emits: the flushed accumulator when the line
/// opens a new record, none otherwise.
pub open spec fn step_emit(line: Seq<char>, acc: ParseAcc) -> Seq<DisplayModel> {
    if is_display_line(trim_seq(line)) {
        flush_acc(acc)
    } else {
        Seq::<DisplayModel>::empty()
    }
}

/// The records that the remaining lines produce, starting from `acc`.
pub open spec fn parse_rest(lines: Seq<Seq<char>>, acc: ParseAcc) -> Seq<DisplayModel>
    decreases lines.len(),
{
    if lines.len() == 0 {
        flush_acc(acc)
    } else {
        step_emit(lines[0], acc) + parse_rest(lines.drop_first(), step_acc(lines[0], acc))
    }
}

/// The device records described by a whole detection text.
pub open spec fn parse_detect_spec(text: Seq<char>) -> Seq<DisplayModel> {
    parse_rest(split_seq(text, '\n'), empty_acc())
}

/// A record block that never saw a `DRM connector:` line is omitted from
/// the output when it is flushed, whatever else it carries.
pub proof fn lemma_record_without_connector_dropped(acc: ParseAcc)
    requires
        acc.connector is None,
    ensures
        flush_acc(acc) == Seq::<DisplayModel>::empty(),
{
}

/// A record flushed without a captured name carries the synthesized
/// label `Display <id>`.
pub proof fn lemma_name_synthesized(acc: ParseAcc)
    requires
        acc.id is Some,
        acc.connector is Some,
        acc.name is None,
    ensures
        flush_acc(acc).len() == 1,
        flush_acc(acc)[0].name == "Display "@ + acc.id->0,
{
}

/// A `Monitor:` line never overwrites a name that is already set: on any
/// line that does not open a record and does not itself carry `Model:`,
/// a captured name survives.
pub proof fn lemma_monitor_is_fallback(line: Seq<char>, acc: ParseAcc)
    requires
        acc.name is Some,
        !is_display_line(trim_seq(line)),
        !"Model:"@.is_prefix_of(trim_seq(line)),
    ensures
        step_acc(line, acc).name == acc.name,
{
}

/// A line that opens a record has none of the field prefixes.
proof fn lemma_display_line_excludes(t: Seq<char>)
    requires
        "Display "@.is_prefix_of(t),
    ensures
        !"DRM connector:"@.is_prefix_of(t),
        !"Model:"@.is_prefix_of(t),
        !"Monitor:"@.is_prefix_of(t),
{
    reveal_strlit("Display ");
    reveal_strlit("DRM connector:");
    reveal_strlit("Model:");
    reveal_strlit("Monitor:");
    assert(t.subrange(0, "Display "@.len() as int)[1] == t[1]);
    assert(t[1] == 'i');
    if "DRM connector:"@.is_prefix_of(t) {
        assert(t.subrange(0, "DRM connector:"@.len() as int)[1] == t[1]);
    }
    if "Model:"@.is_prefix_of(t) {
        assert(t.subrange(0, "Model:"@.len() as int)[1] == t[1]);
    }
    if "Monitor:"@.is_prefix_of(t) {
        assert(t.subrange(0, "Monitor:"@.len() as int)[1] == t[1]);
    }
}

/// Flushes the accumulator slots into the output list: a record is kept
/// only when both its id and its connector were seen, and a missing name
/// is synthesized from the id.
pub fn save_display(
    displays: &mut Vec<Display>,
    id: Option<String>,
    name: Option<String>,
    connector: Option<String>,
)
    ensures
        final(displays).deep_view() == old(displays).deep_view()
            + flush_acc(acc_of(id, name, connector)),
{
    let ghost acc = acc_of(id, name, connector);
    match (id, connector) {
        (Some(id), Some(connector)) => {
            let name = match name {
                Some(n) => n,
                None => {
                    let mut s = String::from_str("Display ");
                    s.append(id.as_str());
                    s
                },
            };
            displays.push(Display { id, name, drm_connector: connector });
            proof {
                assert(displays.deep_view()
                    =~= old(displays).deep_view() + flush_acc(acc));
            }
        },
        _ => {
            proof {
                assert(displays.deep_view()
                    =~= old(displays).deep_view() + flush_acc(acc));
            }
        },
    }
}

/// Parses a full detection text into the ordered list of device records.
pub fn parse_ddcutil_detect(output: &str) -> (r: Vec<Display>)
    ensures
        r.deep_view() == parse_detect_spec(output@),
{
    let lines = str_split(output, '\n');
    let ghost lv = lines.deep_view();
    let mut displays: Vec<Display> = Vec::new();
    let mut current_id: Option<String> = None;
    let mut current_name: Option<String> = None;
    let mut current_connector: Option<String> = None;
    let mut i: usize = 0;
    proof {
        assert(lv.skip(0) =~= lv);
        assert(parse_rest(lv, empty_acc()) =~= displays.deep_view()
            + parse_rest(lv.skip(0), acc_of(current_id, current_name, current_connector)));
    }
    while i < lines.len()
        invariant
            lv == lines.deep_view(),
            lv == split_seq(output@, '\n'),
            0 <= i <= lines.len(),
            parse_rest(lv, empty_acc()) == displays.deep_view()
                + parse_rest(lv.skip(i as int),
                    acc_of(current_id, current_name, current_connector)),
        decreases lines.len() - i,
    {
        let ghost acc = acc_of(current_id, current_name, current_connector);
        let ghost tail = lv.skip(i as int);
        proof {
            assert(tail[0] == lv[i as int]);
            assert(tail.drop_first() =~= lv.skip(i as int + 1));
            assert(lv[i as int] == lines@[i as int]@);
        }
        let trimmed = str_trim(lines[i].as_str());
        if str_has_prefix(trimmed, "Display ") {
            let rest = str_skip(trimmed, "Display ".unicode_len());
            if !str_contains(rest, "not found") {
                let prev_id = current_id;
                let prev_name = current_name;
                let prev_connector = current_connector;
                save_display(&mut displays, prev_id, prev_name, prev_connector);
                current_id = Some(rest.to_owned());
                current_name = None;
                current_connector = None;
            } else {
                proof {
                    lemma_display_line_excludes(trimmed@);
                }
            }
        } else if str_has_prefix(trimmed, "DRM connector:") {
            let rest = str_trim(str_skip(trimmed, "DRM connector:".unicode_len()));
            current_connector = Some(rest.to_owned());
        } else if str_has_prefix(trimmed, "Model:") {
            let rest = str_trim(str_skip(trimmed, "Model:".unicode_len()));
            current_name = Some(rest.to_owned());
        } else if current_name.is_none() && str_has_prefix(trimmed, "Monitor:") {
            let rest = str_trim(str_skip(trimmed, "Monitor:".unicode_len()));
            current_name = Some(rest.to_owned());
        }
        proof {
            assert(parse_rest(tail, acc) == step_emit(tail[0], acc)
                + parse_rest(tail.drop_first(), step_acc(tail[0], acc)));
            assert(acc_of(current_id, current_name, current_connector)
                == step_acc(tail[0], acc));
            assert(parse_rest(lv, empty_acc()) =~= displays.deep_view()
                + parse_rest(lv.skip(i as int + 1),
                    acc_of(current_id, current_name, current_connector)));
        }
        i = i + 1;
    }
    let prev_id = current_id;
    let prev_name = current_name;
    let prev_connector = current_connector;
    save_display(&mut displays, prev_id, prev_name, prev_connector);
    proof {
        assert(lv.skip(lv.len() as int) =~= Seq::<Seq<char>>::empty());
        assert(displays.deep_view() =~= parse_detect_spec(output@));
    }
    displays
}

/// The device list for one detection run: the parsed records of a
/// successful capture, the empty list when the capture failed.
pub fn enumerate_displays(capture: &Result<String, String>) -> (r: Vec<Display>)
    ensures
        r.deep_view() == match capture {
            Ok(o) => parse_detect_spec(o@),
            Err(_) => Seq::<DisplayModel>::empty(),
        },
{
    match capture {
        Ok(o) => parse_ddcutil_detect(o.as_str()),
        Err(_) => Vec::new(),
    }
}

} // verus!
