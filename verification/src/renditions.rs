//! The renditions a video is transcoded into, and how their names are read
//! back from the keys of the transcoded files.

use vstd::prelude::*;
use crate::text::{after_last, after_last_sep, owned, str_eq, strip_suffix, without_suffix};

verus! {

/// A rendition: its name (also the file name of its output), its height in
/// pixels (never upscaled beyond the source) and its maximum bitrate in bits
/// per second.
pub struct Rendition {
    pub name: String,
    pub height: i32,
    pub max_bitrate: i32,
}

/// The renditions as plain values: (name, height, maximum bitrate).
pub open spec fn rendition_views(v: Seq<Rendition>) -> Seq<(Seq<char>, int, int)> {
    v.map_values(|x: Rendition| (x.name@, x.height as int, x.max_bitrate as int))
}

/// The rendition table: 360p at 1.5 Mbit/s, 720p at 4 Mbit/s, 1080p at
/// 8 Mbit/s.
pub open spec fn rendition_table() -> Seq<(Seq<char>, int, int)> {
    seq![("360p"@, 360int, 1_500_000int), ("720p"@, 720int, 4_000_000int), (
        "1080p"@,
        1080int,
        8_000_000int,
    )]
}

/// The renditions every video is transcoded into, smallest first.
pub fn renditions() -> (r: Vec<Rendition>)
    ensures
        rendition_views(r@) == rendition_table(),
{
    let mut r: Vec<Rendition> = Vec::new();
    r.push(Rendition { name: owned("360p"), height: 360, max_bitrate: 1_500_000 });
    r.push(Rendition { name: owned("720p"), height: 720, max_bitrate: 4_000_000 });
    r.push(Rendition { name: owned("1080p"), height: 1080, max_bitrate: 8_000_000 });
    assert(rendition_views(r@) =~= rendition_table());
    r
}

/// How every rendition is encoded, in the names the MediaConvert API gives
/// its settings.
pub struct TranscodeProfile {
    /// Video codec: `H_264`.
    pub video_codec: String,
    /// H.264 rate control: `QVBR`.
    pub rate_control: String,
    /// QVBR quality level: 7 (about CRF 23).
    pub qvbr_quality_level: i32,
    /// Scaling: `FIT_NO_UPSCALE`, so a rendition is never taller than the
    /// source.
    pub scaling: String,
    /// Name of the input's audio selector that every output takes its
    /// audio from: `Audio Selector 1`.
    pub audio_selector: String,
    /// Which input audio the selector picks: `DEFAULT`.
    pub audio_default_selection: String,
    /// Audio codec: `AAC`.
    pub audio_codec: String,
    /// AAC sample rate in hertz: 48000.
    pub audio_sample_rate: i32,
    /// AAC bitrate in bits per second: 128000.
    pub audio_bitrate: i32,
    /// AAC channel layout: `CODING_MODE_2_0` (stereo).
    pub audio_coding_mode: String,
    /// Container: `MP4`.
    pub container: String,
    /// Output group: `FILE_GROUP_SETTINGS` (files under a destination).
    pub output_group_type: String,
}

/// A transcode profile as plain values.
pub struct ProfileView {
    pub video_codec: Seq<char>,
    pub rate_control: Seq<char>,
    pub qvbr_quality_level: int,
    pub scaling: Seq<char>,
    pub audio_selector: Seq<char>,
    pub audio_default_selection: Seq<char>,
    pub audio_codec: Seq<char>,
    pub audio_sample_rate: int,
    pub audio_bitrate: int,
    pub audio_coding_mode: Seq<char>,
    pub container: Seq<char>,
    pub output_group_type: Seq<char>,
}

/// The view of a transcode profile.
pub open spec fn profile_view(p: TranscodeProfile) -> ProfileView {
    ProfileView {
        video_codec: p.video_codec@,
        rate_control: p.rate_control@,
        qvbr_quality_level: p.qvbr_quality_level as int,
        scaling: p.scaling@,
        audio_selector: p.audio_selector@,
        audio_default_selection: p.audio_default_selection@,
        audio_codec: p.audio_codec@,
        audio_sample_rate: p.audio_sample_rate as int,
        audio_bitrate: p.audio_bitrate as int,
        audio_coding_mode: p.audio_coding_mode@,
        container: p.container@,
        output_group_type: p.output_group_type@,
    }
}

/// The profile every video is transcoded with: H.264 with QVBR at quality
/// 7, never upscaled, stereo AAC at 48 kHz and 128 kbit/s, in MP4 files.
pub open spec fn transcode_profile() -> ProfileView {
    ProfileView {
        video_codec: "H_264"@,
        rate_control: "QVBR"@,
        qvbr_quality_level: 7,
        scaling: "FIT_NO_UPSCALE"@,
        audio_selector: "Audio Selector 1"@,
        audio_default_selection: "DEFAULT"@,
        audio_codec: "AAC"@,
        audio_sample_rate: 48000,
        audio_bitrate: 128000,
        audio_coding_mode: "CODING_MODE_2_0"@,
        container: "MP4"@,
        output_group_type: "FILE_GROUP_SETTINGS"@,
    }
}

/// The transcode profile.
pub fn profile() -> (p: TranscodeProfile)
    ensures
        profile_view(p) == transcode_profile(),
{
    TranscodeProfile {
        video_codec: owned("H_264"),
        rate_control: owned("QVBR"),
        qvbr_quality_level: 7,
        scaling: owned("FIT_NO_UPSCALE"),
        audio_selector: owned("Audio Selector 1"),
        audio_default_selection: owned("DEFAULT"),
        audio_codec: owned("AAC"),
        audio_sample_rate: 48000,
        audio_bitrate: 128000,
        audio_coding_mode: owned("CODING_MODE_2_0"),
        container: owned("MP4"),
        output_group_type: owned("FILE_GROUP_SETTINGS"),
    }
}

/// The quality name that an object key of a transcoded file carries: its
/// file name without the `.mp4` extension, unless that is `status`. Keys of
/// other files, and absent keys, carry none.
pub open spec fn quality_of_key(key: Option<Seq<char>>) -> Option<Seq<char>> {
    match key {
        Some(k) => match without_suffix(after_last(k, '/'), ".mp4"@) {
            Some(q) => if q == "status"@ {
                None
            } else {
                Some(q)
            },
            None => None,
        },
        None => None,
    }
}

/// Where a quality name sorts: 360p, 720p, 1080p, then any other.
pub open spec fn quality_rank(q: Seq<char>) -> int {
    if q == "360p"@ {
        0
    } else if q == "720p"@ {
        1
    } else if q == "1080p"@ {
        2
    } else {
        99
    }
}

/// The names of rank `r`, in the order given.
pub open spec fn of_rank(qs: Seq<Seq<char>>, r: int) -> Seq<Seq<char>> {
    qs.filter(|q: Seq<char>| quality_rank(q) == r)
}

/// The names sorted by rank, names of equal rank kept in the order given
/// (a stable sort).
pub open spec fn sorted_by_rank(qs: Seq<Seq<char>>) -> Seq<Seq<char>> {
    of_rank(qs, 0) + of_rank(qs, 1) + of_rank(qs, 2) + of_rank(qs, 99)
}

/// The qualities of a listing of transcoded files, for the quality picker:
/// each key's quality name, sorted by rank.
pub open spec fn qualities_of(keys: Seq<Option<Seq<char>>>) -> Seq<Seq<char>> {
    sorted_by_rank(keys.filter_map(|k: Option<Seq<char>>| quality_of_key(k)))
}

/// The view of a sequence of optional strings.
pub open spec fn opt_views(v: Seq<Option<String>>) -> Seq<Option<Seq<char>>> {
    v.map_values(
        |o: Option<String>|
            match o {
                Some(s) => Some(s@),
                None => None,
            },
    )
}

/// The rank of a quality name.
pub fn rank_of(q: &str) -> (r: u8)
    ensures
        r as int == quality_rank(q@),
{
    if str_eq(q, "360p") {
        0
    } else if str_eq(q, "720p") {
        1
    } else if str_eq(q, "1080p") {
        2
    } else {
        99
    }
}

/// The quality name an object key carries, if any.
pub fn quality_from_key(key: &str) -> (q: Option<String>)
    ensures
        match q {
            Some(x) => quality_of_key(Some(key@)) == Some(x@),
            None => quality_of_key(Some(key@)) is None,
        },
{
    let file_name = after_last_sep(key, '/');
    match strip_suffix(file_name.as_str(), ".mp4") {
        Some(q) => {
            if str_eq(q.as_str(), "status") {
                None
            } else {
                Some(q)
            }
        },
        None => None,
    }
}

/// The names among `qs` of rank `r`, in order.
fn select_rank(qs: &Vec<String>, r: u8) -> (out: Vec<String>)
    ensures
        crate::text::views(out@) == of_rank(crate::text::views(qs@), r as int),
{
    let ghost all = crate::text::views(qs@);
    let ghost pred = |q: Seq<char>| quality_rank(q) == r as int;
    let mut out: Vec<String> = Vec::new();
    let mut i: usize = 0;
    assert(all.take(0) =~= Seq::<Seq<char>>::empty());
    assert(crate::text::views(out@) =~= Seq::<Seq<char>>::empty());
    assert(all.take(0).filter(pred) == Seq::<Seq<char>>::empty()) by {
        reveal(Seq::filter);
    }
    while i < qs.len()
        invariant
            all == crate::text::views(qs@),
            pred == (|q: Seq<char>| quality_rank(q) == r as int),
            i <= qs.len(),
            crate::text::views(out@) == all.take(i as int).filter(pred),
        decreases qs.len() - i,
    {
        assert(all.take(i + 1).drop_last() =~= all.take(i as int));
        assert(all.take(i + 1).last() == qs@[i as int]@);
        assert(all.take(i + 1).filter(pred) == if pred(qs@[i as int]@) {
            all.take(i as int).filter(pred).push(qs@[i as int]@)
        } else {
            all.take(i as int).filter(pred)
        }) by {
            reveal(Seq::filter);
        }
        if rank_of(qs[i].as_str()) == r {
            let ghost before = crate::text::views(out@);
            out.push(qs[i].clone());
            assert(crate::text::views(out@) =~= before.push(qs@[i as int]@));
        }
        i = i + 1;
    }
    assert(all.take(qs.len() as int) =~= all);
    out
}

/// The qualities of a listing of transcoded files (absent keys included as
/// `None`): each key's quality name, sorted 360p, 720p, 1080p, then the
/// rest, names of equal rank in listing order.
pub fn qualities_from_keys(keys: &Vec<Option<String>>) -> (qs: Vec<String>)
    ensures
        crate::text::views(qs@) == qualities_of(opt_views(keys@)),
{
    let ghost ks = opt_views(keys@);
    let ghost f = |k: Option<Seq<char>>| quality_of_key(k);
    let mut found: Vec<String> = Vec::new();
    let mut i: usize = 0;
    assert(ks.take(0) =~= Seq::<Option<Seq<char>>>::empty());
    assert(crate::text::views(found@) =~= Seq::<Seq<char>>::empty());
    while i < keys.len()
        invariant
            ks == opt_views(keys@),
            f == (|k: Option<Seq<char>>| quality_of_key(k)),
            i <= keys.len(),
            crate::text::views(found@) == ks.take(i as int).filter_map(f),
        decreases keys.len() - i,
    {
        assert(ks.take(i + 1).drop_last() =~= ks.take(i as int));
        let ghost before = crate::text::views(found@);
        match &keys[i] {
            Some(k) => {
                match quality_from_key(k.as_str()) {
                    Some(q) => {
                        let ghost qv = q@;
                        found.push(q);
                        assert(crate::text::views(found@) =~= before + seq![qv]);
                    },
                    None => {},
                }
            },
            None => {},
        }
        i = i + 1;
    }
    assert(ks.take(keys.len() as int) =~= ks);
    let mut qs = select_rank(&found, 0);
    let mut next = select_rank(&found, 1);
    qs.append(&mut next);
    let mut next = select_rank(&found, 2);
    qs.append(&mut next);
    let mut next = select_rank(&found, 99);
    qs.append(&mut next);
    assert(crate::text::views(qs@) =~= sorted_by_rank(crate::text::views(found@)));
    qs
}

/// The qualities in a status document come in rank order: 360p before 720p
/// before 1080p before any other name.
pub proof fn lemma_qualities_sorted(keys: Seq<Option<Seq<char>>>, i: int, j: int)
    requires
        0 <= i < j < qualities_of(keys).len(),
    ensures
        quality_rank(qualities_of(keys)[i]) <= quality_rank(qualities_of(keys)[j]),
{
    let qs = keys.filter_map(|k: Option<Seq<char>>| quality_of_key(k));
    let a = of_rank(qs, 0);
    let b = of_rank(qs, 1);
    let c = of_rank(qs, 2);
    let d = of_rank(qs, 99);
    assert forall|r: int, k: int| 0 <= k < of_rank(qs, r).len() implies quality_rank(
        #[trigger] of_rank(qs, r)[k],
    ) == r by {
        qs.lemma_filter_pred(|q: Seq<char>| quality_rank(q) == r, k);
    }
    let all = a + b + c + d;
    assert(all == qualities_of(keys));
    let ri = quality_rank(all[i]);
    let rj = quality_rank(all[j]);
    // Position ranges of each block.
    if i < a.len() {
        assert(all[i] == a[i]);
    } else if i < a.len() + b.len() {
        assert(all[i] == b[i - a.len()]);
    } else if i < a.len() + b.len() + c.len() {
        assert(all[i] == c[i - a.len() - b.len()]);
    } else {
        assert(all[i] == d[i - a.len() - b.len() - c.len()]);
    }
    if j < a.len() {
        assert(all[j] == a[j]);
    } else if j < a.len() + b.len() {
        assert(all[j] == b[j - a.len()]);
    } else if j < a.len() + b.len() + c.len() {
        assert(all[j] == c[j - a.len() - b.len()]);
    } else {
        assert(all[j] == d[j - a.len() - b.len() - c.len()]);
    }
}

/// The quality name read back from the key a rendition is stored under is
/// the rendition's name, for any name without `/` other than `status`.
pub proof fn lemma_quality_round_trip(prefix: Seq<char>, q: Seq<char>)
    requires
        !q.contains('/'),
        q != "status"@,
        prefix.len() > 0 && prefix.last() == '/',
    ensures
        quality_of_key(Some(prefix + q + ".mp4"@)) == Some(q),
{
    let ext = ".mp4"@;
    let t = q + ext;
    reveal_strlit(".mp4");
    assert(!t.contains('/')) by {
        if t.contains('/') {
            let k = choose|k: int| 0 <= k < t.len() && t[k] == '/';
            if k < q.len() {
                assert(q[k] == '/');
            } else {
                assert(ext[k - q.len()] == '/');
            }
        }
    }
    assert(prefix + q + ext =~= prefix + t);
    lemma_after_last_tail(prefix, t, '/');
    assert(t.subrange(t.len() - ext.len(), t.len() as int) =~= ext);
    assert(t.take(t.len() - ext.len()) =~= q);
}

/// The part after the last separator of `s + t`, when `s` ends with the
/// separator and `t` holds none, is `t`.
pub proof fn lemma_after_last_tail(s: Seq<char>, t: Seq<char>, sep: char)
    requires
        s.len() > 0 && s.last() == sep,
        !t.contains(sep),
    ensures
        crate::text::after_last(s + t, sep) == t,
    decreases t.len(),
{
    if t.len() == 0 {
        assert(s + t =~= s);
    } else {
        let u = t.drop_last();
        assert(!u.contains(sep)) by {
            if u.contains(sep) {
                let k = choose|k: int| 0 <= k < u.len() && u[k] == sep;
                assert(t[k] == sep);
            }
        }
        lemma_after_last_tail(s, u, sep);
        assert((s + t).drop_last() =~= s + u);
        assert((s + t).last() == t.last());
        assert(t.last() != sep) by {
            assert(t[t.len() - 1] == t.last());
        }
        assert(u.push(t.last()) =~= t);
    }
}

} // verus!
