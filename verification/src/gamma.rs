//! Software-dimming backends and connector address resolution.
//!
//! A closed set of backend variants stands behind one capability surface:
//! the display-server variant drives the query tool, the compositor
//! variant is a typed stub, and "no backend" is an absent value. The
//! resolver maps a kernel connector identifier to a display-server output
//! identifier despite the one-off indexing discrepancy between the two.

pub mod wayland;
pub mod x11;

use vstd::prelude::*;
use vstd::string::*;
use crate::strmap::StrMap;
use crate::text::{all_digits, i32_parse_spec, int_str, join_dash, join_sep,
    lemma_dec_val_nonneg, lemma_split_seq_no_sep, parse_i32, push_i32_dec, split_seq, str_eq,
    str_split};

pub use x11::X11Backend;
pub use wayland::WaylandBackend;

verus! {

/// The kind of display session the environment describes.
#[derive(Debug, Clone, Copy, PartialEq, Eq, Structural)]
pub enum SessionType {
    X11,
    Wayland,
    Unknown,
}

/// The character code with an ASCII capital folded to its small form.
pub open spec fn lower_code(c: char) -> int {
    if 'A' <= c && c <= 'Z' {
        c as int + 32
    } else {
        c as int
    }
}

/// Equality up to ASCII case.
pub open spec fn eq_icase(a: Seq<char>, b: Seq<char>) -> bool {
    a.len() == b.len() && forall|i: int|
        0 <= i < a.len() ==> lower_code(a[i]) == lower_code(b[i])
}

pub fn str_eq_icase(a: &str, b: &str) -> (r: bool)
    ensures
        r == eq_icase(a@, b@),
{
    let al = a.unicode_len();
    let bl = b.unicode_len();
    if al != bl {
        return false;
    }
    let mut i: usize = 0;
    while i < al
        invariant
            al == a@.len(),
            al == b@.len(),
            0 <= i <= al,
            forall|j: int| 0 <= j < i ==> lower_code(a@[j]) == lower_code(b@[j]),
        decreases al - i,
    {
        let ca = a.get_char(i);
        let cb = b.get_char(i);
        let la: u32 = if 'A' <= ca && ca <= 'Z' {
            ca as u32 + 32
        } else {
            ca as u32
        };
        let lb: u32 = if 'A' <= cb && cb <= 'Z' {
            cb as u32 + 32
        } else {
            cb as u32
        };
        if la != lb {
            return false;
        }
        i = i + 1;
    }
    true
}

/// The session the environment signals describe: an explicit session-type
/// value equal (up to ASCII case) to `x11` or `wayland` wins outright;
/// otherwise a present Wayland display signal, then a present legacy
/// display signal, then nothing.
pub open spec fn classify_spec(
    session_type: Option<Seq<char>>,
    wayland_display: bool,
    x_display: bool,
) -> SessionType {
    if session_type is Some && eq_icase(session_type->0, "x11"@) {
        SessionType::X11
    } else if session_type is Some && eq_icase(session_type->0, "wayland"@) {
        SessionType::Wayland
    } else if wayland_display {
        SessionType::Wayland
    } else if x_display {
        SessionType::X11
    } else {
        SessionType::Unknown
    }
}

/// Classifies the session from its environment signals: the value of the
/// session-type variable, and whether the Wayland and legacy display
/// variables are present.
pub fn detect_session(
    session_type: Option<&String>,
    wayland_display: bool,
    x_display: bool,
) -> (r: SessionType)
    ensures
        r == classify_spec(
            match session_type {
                Some(s) => Some(s@),
                None => None,
            },
            wayland_display,
            x_display,
        ),
{
    if let Some(s) = session_type {
        if str_eq_icase(s.as_str(), "x11") {
            return SessionType::X11;
        }
        if str_eq_icase(s.as_str(), "wayland") {
            return SessionType::Wayland;
        }
    }
    if wayland_display {
        return SessionType::Wayland;
    }
    if x_display {
        return SessionType::X11;
    }
    SessionType::Unknown
}

/// One software-dimming backend, selected at runtime.
pub enum GammaBackend {
    X11(X11Backend),
    Wayland(WaylandBackend),
}

impl GammaBackend {
    /// The variant's display name.
    pub fn name(&self) -> (r: &'static str)
        ensures
            r@ == match self {
                GammaBackend::X11(_) => "X11 (xrandr)"@,
                GammaBackend::Wayland(_) => "Wayland"@,
            },
    {
        match self {
            GammaBackend::X11(b) => b.name(),
            GammaBackend::Wayland(b) => b.name(),
        }
    }

    /// The command whose captured output enumerates the outputs, or the
    /// stub failure of the compositor variant.
    pub fn enumerate_command(&self) -> (r: Result<Vec<String>, String>)
        ensures
            match self {
                GammaBackend::X11(_) => r is Ok
                    && r->Ok_0.deep_view() == seq!["xrandr"@, "--query"@],
                GammaBackend::Wayland(_) => r is Err
                    && r->Err_0@ == wayland::wayland_unimplemented_msg(),
            },
    {
        match self {
            GammaBackend::X11(b) => Ok(b.enumerate_command()),
            GammaBackend::Wayland(b) => Err(b.unimplemented_error()),
        }
    }

    /// The output directory a captured enumeration run describes; a
    /// failed capture's error text is handed through verbatim.
    pub fn enumerate_outputs(&self, capture: &Result<String, String>) -> (r: Result<
        StrMap,
        String,
    >)
        ensures
            match self {
                GammaBackend::X11(_) => match capture {
                    Ok(o) => r is Ok && r->Ok_0@ == x11::outputs_spec(o@),
                    Err(e) => r is Err && r->Err_0@ == e@,
                },
                GammaBackend::Wayland(_) => r is Err
                    && r->Err_0@ == wayland::wayland_unimplemented_msg(),
            },
    {
        match self {
            GammaBackend::X11(b) => b.enumerate_outputs(capture),
            GammaBackend::Wayland(b) => Err(b.unimplemented_error()),
        }
    }

    /// The command that dims `output` to `value` percent, or the stub
    /// failure of the compositor variant.
    pub fn apply_dimming(&self, output: &str, value: u8) -> (r: Result<Vec<String>, String>)
        requires
            value <= 100,
        ensures
            match self {
                GammaBackend::X11(_) => r is Ok && r->Ok_0.deep_view() == seq![
                    "xrandr"@, "--output"@, output@, "--brightness"@,
                    x11::dim_fraction_str(value as int),
                ],
                GammaBackend::Wayland(_) => r is Err
                    && r->Err_0@ == wayland::wayland_unimplemented_msg(),
            },
    {
        match self {
            GammaBackend::X11(b) => Ok(b.apply_dimming(output, value)),
            GammaBackend::Wayland(b) => Err(b.unimplemented_error()),
        }
    }

    /// The command that restores `output` to full brightness, or the
    /// stub failure of the compositor variant.
    pub fn reset(&self, output: &str) -> (r: Result<Vec<String>, String>)
        ensures
            match self {
                GammaBackend::X11(_) => r is Ok && r->Ok_0.deep_view() == seq![
                    "xrandr"@, "--output"@, output@, "--brightness"@, "1.0"@,
                ],
                GammaBackend::Wayland(_) => r is Err
                    && r->Err_0@ == wayland::wayland_unimplemented_msg(),
            },
    {
        match self {
            GammaBackend::X11(b) => Ok(b.reset(output)),
            GammaBackend::Wayland(b) => Err(b.unimplemented_error()),
        }
    }
}

/// Constructs the backend for a classified session: the display-server
/// variant when its tool is invocable, nothing for a compositor session
/// (that variant cannot be built) or an unknown session.
pub fn create_backend(session: SessionType, xrandr_available: bool) -> (r: Option<
    GammaBackend,
>)
    ensures
        r is Some <==> (session == SessionType::X11 && xrandr_available),
        r is Some ==> r->0 is X11,
{
    match session {
        SessionType::X11 => match X11Backend::new(xrandr_available) {
            Some(b) => Some(GammaBackend::X11(b)),
            None => None,
        },
        SessionType::Wayland => match WaylandBackend::new() {
            Some(b) => Some(GammaBackend::Wayland(b)),
            None => None,
        },
        SessionType::Unknown => None,
    }
}

/// The connector type and numeric index carried by the `-`-separated
/// segments after the card designator: a compound type when the second
/// segment is the literal token `A`, otherwise everything but the last
/// segment, which is the index.
pub open spec fn type_index_spec(parts: Seq<Seq<char>>) -> Option<(Seq<char>, int)> {
    if parts.len() >= 3 && parts[1] == "A"@ {
        match i32_parse_spec(parts[2]) {
            Some(idx) => Some((join_sep(parts.subrange(0, 2), '-'), idx as int)),
            None => None,
        }
    } else if parts.len() >= 2 {
        match i32_parse_spec(parts[parts.len() - 1]) {
            Some(idx) => Some(
                (join_sep(parts.subrange(0, parts.len() - 1), '-'), idx as int),
            ),
            None => None,
        }
    } else {
        None
    }
}

/// Extracts the connector type and index from connector segments such as
/// `HDMI`, `A`, `1` or `DP`, `1`.
pub fn parse_connector_type_and_index(parts: &Vec<String>) -> (r: Option<(String, i32)>)
    ensures
        match r {
            Some(p) => type_index_spec(parts.deep_view()) == Some((p.0@, p.1 as int)),
            None => type_index_spec(parts.deep_view()) is None,
        },
{
    let n = parts.len();
    if n >= 3 && str_eq(parts[1].as_str(), "A") {
        match parse_i32(parts[2].as_str()) {
            Some(idx) => {
                let t = join_dash(parts, 0, 2);
                Some((t, idx))
            },
            None => None,
        }
    } else if n >= 2 {
        match parse_i32(parts[n - 1].as_str()) {
            Some(idx) => {
                let t = join_dash(parts, 0, n - 1);
                Some((t, idx))
            },
            None => None,
        }
    } else {
        None
    }
}

/// The resolved display-server output for a kernel connector: the
/// zero-based candidate `type-(index-1)` when the directory knows it, else
/// the one-based candidate `type-index`, else nothing. A connector with
/// fewer than three segments, or one whose index does not read as a
/// number, never resolves.
pub open spec fn resolve_spec(conn: Seq<char>, dir: Map<Seq<char>, Seq<char>>) -> Option<
    Seq<char>,
> {
    let parts = split_seq(conn, '-');
    if parts.len() < 3 {
        None
    } else {
        match type_index_spec(parts.skip(1)) {
            Some(ti) => {
                let c0 = ti.0 + seq!['-'] + int_str(ti.1 - 1);
                let c1 = ti.0 + seq!['-'] + int_str(ti.1);
                if dir.contains_key(c0) {
                    Some(c0)
                } else if dir.contains_key(c1) {
                    Some(c1)
                } else {
                    None
                }
            },
            None => None,
        }
    }
}

/// An index that a connector segment yields is never negative: a segment
/// of a `-`-split contains no minus sign.
proof fn lemma_segment_index_nonneg(conn: Seq<char>, k: int)
    requires
        0 <= k < split_seq(conn, '-').len(),
    ensures
        i32_parse_spec(split_seq(conn, '-')[k]) is Some
            ==> i32_parse_spec(split_seq(conn, '-')[k])->0 >= 0,
{
    let seg = split_seq(conn, '-')[k];
    lemma_split_seq_no_sep(conn, '-');
    if i32_parse_spec(seg) is Some {
        let body = if seg.len() > 0 && (seg[0] == '+' || seg[0] == '-') {
            seg.drop_first()
        } else {
            seg
        };
        assert(body.len() > 0 && all_digits(body));
        assert(seg.len() > 0);
        assert(seg[0] != '-');
        lemma_dec_val_nonneg(body);
    }
}

/// A malformed connector never resolves, against any directory: one with
/// fewer than three `-`-separated segments, or one whose segments yield
/// no readable index.
pub proof fn lemma_malformed_connector_unresolved(
    conn: Seq<char>,
    dir: Map<Seq<char>, Seq<char>>,
)
    requires
        split_seq(conn, '-').len() < 3
            || type_index_spec(split_seq(conn, '-').skip(1)) is None,
    ensures
        resolve_spec(conn, dir) is None,
{
}

/// When both candidate outputs exist in the directory, resolution always
/// prefers the zero-based one; downstream behaviour depends on this bias.
pub proof fn lemma_zero_based_preferred(conn: Seq<char>, dir: Map<Seq<char>, Seq<char>>)
    requires
        split_seq(conn, '-').len() >= 3,
        type_index_spec(split_seq(conn, '-').skip(1)) is Some,
        ({
            let ti = type_index_spec(split_seq(conn, '-').skip(1))->0;
            dir.contains_key(ti.0 + seq!['-'] + int_str(ti.1 - 1))
        }),
    ensures
        ({
            let ti = type_index_spec(split_seq(conn, '-').skip(1))->0;
            resolve_spec(conn, dir) == Some(ti.0 + seq!['-'] + int_str(ti.1 - 1))
        }),
{
}

/// Resolves a kernel connector name such as `card1-DP-1` to an output
/// name the directory knows, preferring the zero-based hypothesis.
pub fn map_drm_to_xrandr(drm_connector: &str, xrandr_outputs: &StrMap) -> (r: Option<
    String,
>)
    ensures
        r.deep_view() == resolve_spec(drm_connector@, xrandr_outputs@),
{
    let parts = str_split(drm_connector, '-');
    let n = parts.len();
    if n < 3 {
        return None;
    }
    let mut rest: Vec<String> = Vec::new();
    let mut i: usize = 1;
    while i < n
        invariant
            n == parts@.len(),
            1 <= i <= n,
            rest@.len() == i - 1,
            forall|j: int| 0 <= j < i - 1 ==> (#[trigger] rest@[j])@ == parts@[j + 1]@,
        decreases n - i,
    {
        rest.push(parts[i].clone());
        i = i + 1;
    }
    proof {
        assert forall|j: int| 0 <= j < n - 1 implies
            #[trigger] rest.deep_view()[j] == parts.deep_view().skip(1)[j] by {
            assert(rest.deep_view()[j] == rest@[j]@);
            assert(parts.deep_view().skip(1)[j] == parts@[j + 1]@);
        }
        assert(rest.deep_view() =~= parts.deep_view().skip(1));
    }
    match parse_connector_type_and_index(&rest) {
        Some(ti) => {
            let (conn_type, drm_index) = ti;
            let ghost ct = conn_type@;
            proof {
                let pv = parts.deep_view();
                let rv = pv.skip(1);
                if rv.len() >= 3 && rv[1] == "A"@ {
                    assert(rv[2] == split_seq(drm_connector@, '-')[3]);
                    lemma_segment_index_nonneg(drm_connector@, 3);
                } else {
                    assert(rv[rv.len() - 1]
                        == split_seq(drm_connector@, '-')[pv.len() - 1]);
                    lemma_segment_index_nonneg(drm_connector@, pv.len() - 1);
                }
            }
            let mut c0 = conn_type.clone();
            c0.append("-");
            push_i32_dec(&mut c0, drm_index - 1);
            let mut c1 = conn_type;
            c1.append("-");
            push_i32_dec(&mut c1, drm_index);
            proof {
                reveal_strlit("-");
                assert(c0@ =~= ct + seq!['-'] + int_str(drm_index - 1));
                assert(c1@ =~= ct + seq!['-'] + int_str(drm_index as int));
            }
            if xrandr_outputs.contains_key(c0.as_str()) {
                Some(c0)
            } else if xrandr_outputs.contains_key(c1.as_str()) {
                Some(c1)
            } else {
                None
            }
        },
        None => None,
    }
}

} // verus!
