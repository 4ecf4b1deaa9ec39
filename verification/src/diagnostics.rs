//! The diagnostics page: the engine's state, the versions of the helper
//! programs, and which media codecs `ffmpeg` can decode.

use vstd::prelude::*;
use crate::i18n::{current_wf, t, translate, I18n};
use crate::sidecar::SidecarStatus;
use crate::text::{chars_of, decimal, seq_contains, str_contains, string_from_range, to_owned_string, u64_to_string};

verus! {

/// The first line of a program's output, as `str::lines` gives it: up to the
/// first line feed, without a carriage return just before it; nothing for
/// empty output.
pub open spec fn first_line_spec(s: Seq<char>) -> Option<Seq<char>> {
    if s.len() == 0 {
        None
    } else {
        let n = newline_at(s);
        if n < s.len() && n > 0 && s[n - 1] == '\r' {
            Some(s.take(n - 1))
        } else {
            Some(s.take(n))
        }
    }
}

/// The index of the first line feed, the length without one.
pub open spec fn newline_at(s: Seq<char>) -> int
    decreases s.len(),
{
    if s.len() == 0 {
        0
    } else if s[0] == '\n' {
        0
    } else {
        1 + newline_at(s.drop_first())
    }
}

proof fn lemma_newline_at(s: Seq<char>, i: int)
    requires
        0 <= i <= s.len(),
        forall|k: int| 0 <= k < i ==> s[k] != '\n',
        i == s.len() || s[i] == '\n',
    ensures
        newline_at(s) == i,
    decreases i,
{
    if i > 0 {
        let t = s.drop_first();
        assert forall|k: int| 0 <= k < i - 1 implies t[k] != '\n' by {
            assert(t[k] == s[k + 1]);
        }
        if i < s.len() {
            assert(t[i - 1] == s[i]);
        }
        lemma_newline_at(t, i - 1);
    }
}

/// The first line of `output`.
pub fn first_line(output: &str) -> (r: Option<String>)
    ensures
        match r {
            Some(l) => first_line_spec(output@) == Some(l@),
            None => first_line_spec(output@) is None,
        },
{
    let v = chars_of(output);
    if v.len() == 0 {
        return None;
    }
    let mut i: usize = 0;
    while i < v.len() && v[i] != '\n'
        invariant
            i <= v@.len(),
            v@ == output@,
            forall|k: int| 0 <= k < i ==> v@[k] != '\n',
        decreases v@.len() - i,
    {
        i = i + 1;
    }
    proof {
        lemma_newline_at(v@, i as int);
    }
    let end = if i < v.len() && i > 0 && v[i - 1] == '\r' {
        i - 1
    } else {
        i
    };
    let line = string_from_range(&v, 0, end);
    assert(v@.subrange(0, end as int) =~= v@.take(end as int));
    Some(line)
}

/// The version line shown for a helper program: the first line of what
/// `--version` printed, else "not found".
pub fn program_version(cur: &Option<I18n>, output: Option<&str>) -> (s: String)
    requires
        current_wf(*cur),
    ensures
        s@ == (match output {
            Some(o) => match first_line_spec(o@) {
                Some(l) => l,
                None => translate(*cur, "diagnostics_not_found"@),
            },
            None => translate(*cur, "diagnostics_not_found"@),
        }),
{
    match output {
        Some(o) => match first_line(o) {
            Some(l) => l,
            None => t(cur, "diagnostics_not_found"),
        },
        None => t(cur, "diagnostics_not_found"),
    }
}

/// The codecs listed, each with the decoder names that provide it (spaces
/// around them as `ffmpeg -decoders` prints them).
pub open spec fn codec_table() -> Seq<(Seq<char>, Seq<Seq<char>>)> {
    seq![
        ("H.264"@, seq![" h264 "@, " h264_v4l2m2m "@]),
        ("H.265/HEVC"@, seq![" hevc "@, " hevc_v4l2m2m "@]),
        ("VP9"@, seq![" vp9 "@, " libvpx-vp9 "@]),
        ("AV1"@, seq![" av1 "@, " libdav1d "@]),
        ("Opus"@, seq![" opus "@, " libopus "@]),
    ]
}

/// A codec is available when the decoder list names one of its decoders.
pub open spec fn codec_available(list: Option<Seq<char>>, needles: Seq<Seq<char>>) -> bool {
    match list {
        Some(l) => exists|k: int| 0 <= k < needles.len() && seq_contains(l, needles[k]),
        None => false,
    }
}

/// The codecs with whether each can be decoded, from the output of
/// `ffmpeg -decoders` (`None` when it could not be run).
pub fn codec_rows(decoder_list: Option<&str>) -> (rows: Vec<(&'static str, bool)>)
    ensures
        rows@.len() == codec_table().len(),
        forall|i: int|
            0 <= i < rows@.len() ==> (#[trigger] rows@[i]).0@ == codec_table()[i].0 && rows@[i].1
                == codec_available(
                match decoder_list {
                    Some(l) => Some(l@),
                    None => None,
                },
                codec_table()[i].1,
            ),
{
    let table: [(&'static str, &'static str, &'static str); 5] = [
        ("H.264", " h264 ", " h264_v4l2m2m "),
        ("H.265/HEVC", " hevc ", " hevc_v4l2m2m "),
        ("VP9", " vp9 ", " libvpx-vp9 "),
        ("AV1", " av1 ", " libdav1d "),
        ("Opus", " opus ", " libopus "),
    ];
    let ghost views = table@.map_values(|e: (&'static str, &'static str, &'static str)| (e.0@, seq![e.1@, e.2@]));
    assert(views =~= codec_table());
    let ghost list = match decoder_list {
        Some(l) => Some(l@),
        None => None::<Seq<char>>,
    };
    let mut rows: Vec<(&'static str, bool)> = Vec::new();
    let mut i: usize = 0;
    while i < 5
        invariant
            i <= 5,
            table@.len() == 5,
            views == codec_table(),
            views == table@.map_values(|e: (&'static str, &'static str, &'static str)| (e.0@, seq![e.1@, e.2@])),
            list == (match decoder_list {
                Some(l) => Some(l@),
                None => None::<Seq<char>>,
            }),
            rows@.len() == i,
            forall|k: int|
                0 <= k < i ==> (#[trigger] rows@[k]).0@ == codec_table()[k].0 && rows@[k].1 == codec_available(
                    list,
                    codec_table()[k].1,
                ),
        decreases 5 - i,
    {
        let (label, a, b) = table[i];
        assert(views[i as int] == (label@, seq![a@, b@]));
        let available = match decoder_list {
            Some(l) => str_contains(l, a) || str_contains(l, b),
            None => false,
        };
        proof {
            let needles = seq![a@, b@];
            if let Some(l) = decoder_list {
                if available {
                    if seq_contains(l@, a@) {
                        assert(seq_contains(l@, needles[0]));
                    } else {
                        assert(seq_contains(l@, needles[1]));
                    }
                } else {
                    assert forall|k: int| 0 <= k < needles.len() implies !seq_contains(l@, needles[k]) by {
                        if k == 0 {
                        } else {
                        }
                    }
                }
            }
        }
        rows.push((label, available));
        i = i + 1;
    }
    rows
}

/// The engine rows of the page.
pub struct EngineRows {
    pub status: String,
    pub runtime: &'static str,
    pub pid: String,
    pub pending: String,
}

/// The engine's rows: running or stopped, its runtime, its process id (a dash
/// when there is none) and how many requests wait for an answer.
pub fn engine_rows(cur: &Option<I18n>, status: &SidecarStatus) -> (r: EngineRows)
    requires
        current_wf(*cur),
    ensures
        r.status@ == translate(*cur, if status.running { "diagnostics_running"@ } else { "diagnostics_stopped"@ }),
        r.runtime == status.runtime,
        r.pid@ == (match status.pid {
            Some(p) => decimal(p as nat),
            None => "—"@,
        }),
        r.pending@ == decimal(status.pending_requests as nat),
{
    let text = if status.running {
        t(cur, "diagnostics_running")
    } else {
        t(cur, "diagnostics_stopped")
    };
    let pid = match status.pid {
        Some(p) => u64_to_string(p as u64),
        None => to_owned_string("—"),
    };
    EngineRows {
        status: text,
        runtime: status.runtime,
        pid,
        pending: u64_to_string(status.pending_requests as u64),
    }
}

} // verus!
