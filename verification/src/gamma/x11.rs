//! The display-server dimming variant.
//!
//! It exists only when the display-server query tool is invocable. The
//! logic here is the pure half of each operation: parsing the query
//! tool's output into an output directory, and building the exact
//! command lines that enumerate outputs and set or reset brightness.
//! Running those commands is the caller's side of the contract.

use vstd::prelude::*;
use vstd::string::*;
use crate::strmap::StrMap;
use crate::text::{dec_str, digit_char, push_u32_dec, split_seq, split_ws_seq, str_eq,
    str_split, str_split_ws};

verus! {

pub struct X11Backend;

/// The output-directory entry one query line contributes: its first two
/// whitespace tokens, when the second is exactly `connected` or
/// `disconnected`; nothing otherwise.
pub open spec fn line_entry(line: Seq<char>) -> Option<(Seq<char>, Seq<char>)> {
    let parts = split_ws_seq(line);
    if parts.len() >= 2 && (parts[1] == "connected"@ || parts[1] == "disconnected"@) {
        Some((parts[0], parts[1]))
    } else {
        None
    }
}

/// The output directory a sequence of query lines describes.
pub open spec fn outputs_from(lines: Seq<Seq<char>>) -> Map<Seq<char>, Seq<char>>
    decreases lines.len(),
{
    if lines.len() == 0 {
        Map::<Seq<char>, Seq<char>>::empty()
    } else {
        match line_entry(lines.last()) {
            Some(e) => outputs_from(lines.drop_last()).insert(e.0, e.1),
            None => outputs_from(lines.drop_last()),
        }
    }
}

/// The output directory a whole query text describes.
pub open spec fn outputs_spec(text: Seq<char>) -> Map<Seq<char>, Seq<char>> {
    outputs_from(split_seq(text, '\n'))
}

/// Parses the query tool's output: every line with at least two
/// whitespace tokens whose second token is exactly `connected` or
/// `disconnected` binds its first token to that state.
pub fn parse_xrandr_query(text: &str) -> (r: StrMap)
    ensures
        r@ == outputs_spec(text@),
{
    let lines = str_split(text, '\n');
    let ghost lv = lines.deep_view();
    let mut m = StrMap::new();
    let mut i: usize = 0;
    proof {
        assert(lv.take(0) =~= Seq::<Seq<char>>::empty());
    }
    while i < lines.len()
        invariant
            lv == lines.deep_view(),
            lv == split_seq(text@, '\n'),
            0 <= i <= lines.len(),
            m@ == outputs_from(lv.take(i as int)),
        decreases lines.len() - i,
    {
        proof {
            assert(lv.take(i as int + 1).drop_last() =~= lv.take(i as int));
            assert(lv.take(i as int + 1).last() == lv[i as int]);
            assert(lv[i as int] == lines@[i as int]@);
        }
        let parts = str_split_ws(lines[i].as_str());
        if parts.len() >= 2
            && (str_eq(parts[1].as_str(), "connected")
                || str_eq(parts[1].as_str(), "disconnected")) {
            proof {
                assert(parts.deep_view()[0] == parts@[0]@);
                assert(parts.deep_view()[1] == parts@[1]@);
            }
            let k = parts[0].clone();
            let v = parts[1].clone();
            m.insert(k, v);
        } else {
            proof {
                if parts.len() >= 2 {
                    assert(parts.deep_view()[1] == parts@[1]@);
                }
            }
        }
        i = i + 1;
    }
    proof {
        assert(lv.take(lines@.len() as int) =~= lv);
    }
    m
}

/// The decimal the underlying tool reads for a 0–100 dimming value
/// scaled to the unit interval: `1` for 100, `0` for 0, and the one- or
/// two-digit fraction `0.d`/`0.dd` otherwise.
pub open spec fn dim_fraction_str(v: int) -> Seq<char> {
    if v == 100 {
        seq!['1']
    } else if v == 0 {
        seq!['0']
    } else if v % 10 == 0 {
        seq!['0', '.', digit_char(v / 10)]
    } else {
        seq!['0', '.', digit_char(v / 10), digit_char(v % 10)]
    }
}

/// Writes the brightness fraction for a dimming value.
pub fn dim_fraction(value: u8) -> (r: String)
    requires
        value <= 100,
    ensures
        r@ == dim_fraction_str(value as int),
{
    proof {
        reveal_strlit("1");
        reveal_strlit("0");
        reveal_strlit("0.");
    }
    if value == 100 {
        let r = String::from_str("1");
        proof {
            assert(r@ =~= dim_fraction_str(value as int));
        }
        r
    } else if value == 0 {
        let r = String::from_str("0");
        proof {
            assert(r@ =~= dim_fraction_str(value as int));
        }
        r
    } else if value % 10 == 0 {
        let mut r = String::from_str("0.");
        push_u32_dec(&mut r, (value / 10) as u32);
        proof {
            assert(dec_str((value / 10) as nat) =~= seq![digit_char(value as int / 10)]);
            assert(r@ =~= dim_fraction_str(value as int));
        }
        r
    } else {
        let mut r = String::from_str("0.");
        push_u32_dec(&mut r, (value / 10) as u32);
        push_u32_dec(&mut r, (value % 10) as u32);
        proof {
            assert(dec_str((value / 10) as nat) =~= seq![digit_char(value as int / 10)]);
            assert(dec_str((value % 10) as nat) =~= seq![digit_char(value as int % 10)]);
            assert(r@ =~= dim_fraction_str(value as int));
        }
        r
    }
}

impl X11Backend {
    /// The display-server variant exists exactly when its query tool is
    /// invocable.
    pub fn new(xrandr_available: bool) -> (r: Option<X11Backend>)
        ensures
            r is Some <==> xrandr_available,
    {
        if xrandr_available {
            Some(X11Backend)
        } else {
            None
        }
    }

    /// The variant's display name.
    pub fn name(&self) -> (r: &'static str)
        ensures
            r@ == "X11 (xrandr)"@,
    {
        "X11 (xrandr)"
    }

    /// The command that enumerates outputs.
    pub fn enumerate_command(&self) -> (r: Vec<String>)
        ensures
            r.deep_view() == seq!["xrandr"@, "--query"@],
    {
        let mut v: Vec<String> = Vec::new();
        v.push(String::from_str("xrandr"));
        v.push(String::from_str("--query"));
        proof {
            assert(v.deep_view() =~= seq!["xrandr"@, "--query"@]);
        }
        v
    }

    /// The output directory a captured query run describes; a failed
    /// capture's error text is handed through verbatim.
    pub fn enumerate_outputs(&self, capture: &Result<String, String>) -> (r: Result<
        StrMap,
        String,
    >)
        ensures
            match capture {
                Ok(o) => r is Ok && r->Ok_0@ == outputs_spec(o@),
                Err(e) => r is Err && r->Err_0@ == e@,
            },
    {
        match capture {
            Ok(o) => Ok(parse_xrandr_query(o.as_str())),
            Err(e) => Err(e.clone()),
        }
    }

    /// The command that dims `output` to `value` percent.
    pub fn apply_dimming(&self, output: &str, value: u8) -> (r: Vec<String>)
        requires
            value <= 100,
        ensures
            r.deep_view() == seq![
                "xrandr"@, "--output"@, output@, "--brightness"@,
                dim_fraction_str(value as int),
            ],
    {
        let mut v: Vec<String> = Vec::new();
        v.push(String::from_str("xrandr"));
        v.push(String::from_str("--output"));
        v.push(output.to_owned());
        v.push(String::from_str("--brightness"));
        v.push(dim_fraction(value));
        proof {
            assert(v.deep_view() =~= seq![
                "xrandr"@, "--output"@, output@, "--brightness"@,
                dim_fraction_str(value as int),
            ]);
        }
        v
    }

    /// The command that restores `output` to full brightness.
    pub fn reset(&self, output: &str) -> (r: Vec<String>)
        ensures
            r.deep_view() == seq![
                "xrandr"@, "--output"@, output@, "--brightness"@, "1.0"@,
            ],
    {
        let mut v: Vec<String> = Vec::new();
        v.push(String::from_str("xrandr"));
        v.push(String::from_str("--output"));
        v.push(output.to_owned());
        v.push(String::from_str("--brightness"));
        v.push(String::from_str("1.0"));
        proof {
            assert(v.deep_view() =~= seq![
                "xrandr"@, "--output"@, output@, "--brightness"@, "1.0"@,
            ]);
        }
        v
    }
}

} // verus!
