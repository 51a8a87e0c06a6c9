use vstd::prelude::*;
use crate::config::{PhoneModel, SceneConfig};
use crate::devices::spec_lower_code;
use crate::strutil::{ascii_string_of_bytes, starts_with_char};

verus! {

/// Where a resolved overlay path came from.
#[derive(Clone, Copy, Debug, PartialEq, Eq, Structural)]
pub enum OverlaySource {
    Explicit,
    ModelDefault,
}

impl OverlaySource {
    /// A short label for reports.
    pub fn label(self) -> (r: &'static str)
        ensures
            self == OverlaySource::Explicit ==> r@ == "explicit"@,
            self == OverlaySource::ModelDefault ==> r@ == "model_default"@,
    {
        match self {
            OverlaySource::Explicit => "explicit",
            OverlaySource::ModelDefault => "model_default",
        }
    }
}

/// An overlay path with its provenance.
#[derive(Clone, Debug)]
pub struct ResolvedOverlay {
    pub path: String,
    pub source: OverlaySource,
}

/// One finding of overlay verification.
#[derive(Clone, Debug)]
pub struct VerifyIssue {
    pub scene_id: String,
    pub level: VerifyLevel,
    pub message: String,
}

/// The severity of a finding.
#[derive(Clone, Copy, Debug, PartialEq, Eq, Structural)]
pub enum VerifyLevel {
    Warning,
    Error,
}

impl VerifyLevel {
    /// A short label for reports.
    pub fn label(self) -> (r: &'static str)
        ensures
            self == VerifyLevel::Warning ==> r@ == "WARN"@,
            self == VerifyLevel::Error ==> r@ == "ERROR"@,
    {
        match self {
            VerifyLevel::Warning => "WARN",
            VerifyLevel::Error => "ERROR",
        }
    }
}

/// The outcome of verifying the overlays of a whole configuration.
#[derive(Clone, Debug)]
pub struct VerifySummary {
    pub scene_count: usize,
    pub checked_overlays: usize,
    pub warnings: usize,
    pub errors: usize,
    pub issues: Vec<VerifyIssue>,
}

impl VerifySummary {
    /// Whether the run counts as failed: any error, or — in strict mode —
    /// any warning.
    pub fn failed(&self, strict: bool) -> (r: bool)
        ensures
            r == (self.errors > 0 || (strict && self.warnings > 0)),
    {
        self.errors > 0 || (strict && self.warnings > 0)
    }
}

/// The outcome of importing a directory of frame assets.
#[derive(Clone, Debug)]
pub struct ImportSummary {
    pub source: String,
    pub destination: String,
    pub imported: usize,
    pub skipped: usize,
    pub notes: Vec<String>,
}

// ---------------------------------------------------------------------------
// Paths and slugs.
// ---------------------------------------------------------------------------

/// The table slug of a phone model.
pub open spec fn spec_model_slug(model: PhoneModel) -> Seq<char> {
    match model {
        PhoneModel::Iphone16Pro => "iphone_16_pro"@,
        PhoneModel::Iphone16ProMax => "iphone_16_pro_max"@,
        PhoneModel::Iphone17Pro => "iphone_17_pro"@,
        PhoneModel::Iphone17ProMax => "iphone_17_pro_max"@,
    }
}

/// The table slug of a phone model.
pub fn model_slug(model: PhoneModel) -> (r: &'static str)
    ensures
        r@ == spec_model_slug(model),
{
    match model {
        PhoneModel::Iphone16Pro => "iphone_16_pro",
        PhoneModel::Iphone16ProMax => "iphone_16_pro_max",
        PhoneModel::Iphone17Pro => "iphone_17_pro",
        PhoneModel::Iphone17ProMax => "iphone_17_pro_max",
    }
}

/// A path relative to the configuration directory; a path that starts with
/// `/` is kept as it is.
pub open spec fn spec_resolve_path(config_dir: Seq<char>, path: Seq<char>) -> Seq<char> {
    if path.len() > 0 && path[0] == '/' {
        path
    } else {
        config_dir + "/"@ + path
    }
}

/// Resolves a possibly relative path against the configuration directory.
pub fn resolve_path(config_dir: &str, path: &str) -> (r: String)
    ensures
        r@ == spec_resolve_path(config_dir@, path@),
{
    if starts_with_char(path, '/') {
        path.to_owned()
    } else {
        let mut s = config_dir.to_owned();
        s.append("/");
        s.append(path);
        s
    }
}

/// The default overlay asset path of a model, under the configuration
/// directory.
pub open spec fn spec_default_model_overlay_path(config_dir: Seq<char>, model: PhoneModel) -> Seq<
    char,
> {
    config_dir + "/assets/frames/"@ + spec_model_slug(model) + ".png"@
}

/// The default overlay asset path of a model.
pub fn default_model_overlay_path(config_dir: &str, model: PhoneModel) -> (r: String)
    ensures
        r@ == spec_default_model_overlay_path(config_dir@, model),
{
    let mut s = config_dir.to_owned();
    s.append("/assets/frames/");
    s.append(model_slug(model));
    s.append(".png");
    s
}

/// Whether a path names a PNG file: it ends in `.png` up to ASCII case, and
/// the dot does not begin the file name.
pub open spec fn spec_is_png_file(path: Seq<char>) -> bool {
    &&& path.len() >= 5
    &&& spec_lower_code(path[path.len() - 4]) == '.' as u32
    &&& spec_lower_code(path[path.len() - 3]) == 'p' as u32
    &&& spec_lower_code(path[path.len() - 2]) == 'n' as u32
    &&& spec_lower_code(path[path.len() - 1]) == 'g' as u32
    &&& path[path.len() - 5] != '/'
}

/// Whether a path names a PNG file.
pub fn is_png_file(path: &str) -> (r: bool)
    ensures
        r == spec_is_png_file(path@),
{
    let n = path.unicode_len();
    if n < 5 {
        return false;
    }
    let d = path.get_char(n - 4) as u32;
    let p = path.get_char(n - 3) as u32;
    let g1 = path.get_char(n - 2) as u32;
    let g2 = path.get_char(n - 1) as u32;
    let lead = path.get_char(n - 5);
    let dl = if 65 <= d && d <= 90 {
        d + 32
    } else {
        d
    };
    let pl = if 65 <= p && p <= 90 {
        p + 32
    } else {
        p
    };
    let n1 = if 65 <= g1 && g1 <= 90 {
        g1 + 32
    } else {
        g1
    };
    let g3 = if 65 <= g2 && g2 <= 90 {
        g2 + 32
    } else {
        g2
    };
    dl == '.' as u32 && pl == 'p' as u32 && n1 == 'n' as u32 && g3 == 'g' as u32 && lead != '/'
}

/// An ASCII letter or digit.
pub open spec fn is_ascii_alnum(c: char) -> bool {
    ('0' <= c && c <= '9') || ('a' <= c && c <= 'z') || ('A' <= c && c <= 'Z')
}

/// The lower-case character of an ASCII letter or digit.
pub open spec fn spec_lower_char(c: char) -> char {
    if 'A' <= c && c <= 'Z' {
        ((c as u32 + 32) as u8) as char
    } else {
        c
    }
}

/// The raw slug of a file stem: letters and digits become lower case, every
/// other run of characters becomes one underscore.
pub open spec fn spec_slug_core(s: Seq<char>, prev_sep: bool) -> Seq<char>
    decreases s.len(),
{
    if s.len() == 0 {
        Seq::<char>::empty()
    } else if is_ascii_alnum(s[0]) {
        seq![spec_lower_char(s[0])] + spec_slug_core(s.drop_first(), false)
    } else if !prev_sep {
        seq!['_'] + spec_slug_core(s.drop_first(), true)
    } else {
        spec_slug_core(s.drop_first(), true)
    }
}

/// The raw slug with leading underscores removed.
pub open spec fn spec_trim_underscore_front(s: Seq<char>) -> Seq<char>
    decreases s.len(),
{
    if s.len() > 0 && s[0] == '_' {
        spec_trim_underscore_front(s.drop_first())
    } else {
        s
    }
}

/// The raw slug with trailing underscores removed.
pub open spec fn spec_trim_underscore_back(s: Seq<char>) -> Seq<char>
    decreases s.len(),
{
    if s.len() > 0 && s[s.len() - 1] == '_' {
        spec_trim_underscore_back(s.drop_last())
    } else {
        s
    }
}

/// The normalized slug of a file stem: the raw slug with the underscores at
/// both ends removed.
pub open spec fn spec_normalize_frame_slug(s: Seq<char>) -> Seq<char> {
    spec_trim_underscore_back(spec_trim_underscore_front(spec_slug_core(s, false)))
}

proof fn lemma_trim_underscore_front_subrange(s: Seq<char>, k: int)
    requires
        0 <= k <= s.len(),
        forall|i: int| 0 <= i < k ==> s[i] == '_',
        k == s.len() || s[k] != '_',
    ensures
        spec_trim_underscore_front(s) == s.subrange(k, s.len() as int),
    decreases k,
{
    if k == 0 {
        assert(s.subrange(0, s.len() as int) =~= s);
    } else {
        let t = s.drop_first();
        lemma_trim_underscore_front_subrange(t, k - 1);
        assert(t.subrange(k - 1, t.len() as int) =~= s.subrange(k, s.len() as int));
    }
}

proof fn lemma_trim_underscore_back_subrange(s: Seq<char>, k: int)
    requires
        0 <= k <= s.len(),
        forall|i: int| k <= i < s.len() ==> s[i] == '_',
        k == 0 || s[k - 1] != '_',
    ensures
        spec_trim_underscore_back(s) == s.subrange(0, k),
    decreases s.len() - k,
{
    if k == s.len() {
        if s.len() > 0 && s[s.len() - 1] == '_' {
            assert(s[k - 1] != '_');
        }
        assert(s.subrange(0, s.len() as int) =~= s);
    } else {
        let t = s.drop_last();
        lemma_trim_underscore_back_subrange(t, k);
        assert(t.subrange(0, k) =~= s.subrange(0, k));
    }
}

/// Normalizes a file stem to a slug: ASCII letters and digits are kept in
/// lower case, every other run of characters collapses to one underscore,
/// and underscores at either end are dropped.
pub fn normalize_frame_slug(stem: &str) -> (r: String)
    requires
        stem@.len() <= 1000000,
    ensures
        r@ == spec_normalize_frame_slug(stem@),
{
    let n = stem.unicode_len();
    let mut raw: Vec<u8> = Vec::new();
    let mut prev_sep = false;
    proof {
        assert(stem@.skip(0) =~= stem@);
        assert(raw@.map_values(|b: u8| b as char) =~= Seq::<char>::empty());
        assert(Seq::<char>::empty() + spec_slug_core(stem@, false) =~= spec_slug_core(
            stem@,
            false,
        ));
    }
    let mut i: usize = 0;
    while i < n
        invariant
            n == stem@.len(),
            i <= n,
            forall|j: int| 0 <= j < raw@.len() ==> raw@[j] < 128,
            raw@.map_values(|b: u8| b as char) + spec_slug_core(stem@.skip(i as int), prev_sep)
                == spec_slug_core(stem@, false),
        decreases n - i,
    {
        let c = stem.get_char(i);
        let code = c as u32;
        let ghost rest = stem@.skip(i as int);
        proof {
            assert(rest[0] == stem@[i as int]);
            assert(rest.drop_first() =~= stem@.skip(i + 1));
        }
        let is_alnum = (48 <= code && code <= 57) || (97 <= code && code <= 122) || (65 <= code
            && code <= 90);
        if is_alnum {
            let lower: u32 = if 65 <= code && code <= 90 {
                code + 32
            } else {
                code
            };
            raw.push(lower as u8);
            prev_sep = false;
            proof {
                assert(raw@.map_values(|b: u8| b as char) =~= raw@.drop_last().map_values(
                    |b: u8| b as char,
                ).push(spec_lower_char(stem@[i as int])));
                assert(raw@.drop_last().map_values(|b: u8| b as char).push(
                    spec_lower_char(stem@[i as int]),
                ) + spec_slug_core(stem@.skip(i + 1), false) =~= raw@.drop_last().map_values(
                    |b: u8| b as char,
                ) + (seq![spec_lower_char(stem@[i as int])] + spec_slug_core(
                    stem@.skip(i + 1),
                    false,
                )));
            }
        } else if !prev_sep {
            raw.push(95);
            prev_sep = true;
            proof {
                assert(raw@.map_values(|b: u8| b as char) =~= raw@.drop_last().map_values(
                    |b: u8| b as char,
                ).push('_'));
                assert(raw@.drop_last().map_values(|b: u8| b as char).push('_') + spec_slug_core(
                    stem@.skip(i + 1),
                    true,
                ) =~= raw@.drop_last().map_values(|b: u8| b as char) + (seq!['_']
                    + spec_slug_core(stem@.skip(i + 1), true)));
            }
        } else {
            prev_sep = true;
        }
        i = i + 1;
    }
    proof {
        assert(stem@.skip(n as int) =~= Seq::<char>::empty());
        assert(raw@.map_values(|b: u8| b as char) + Seq::<char>::empty() =~= raw@.map_values(
            |b: u8| b as char,
        ));
    }
    let ghost core = spec_slug_core(stem@, false);
    let m = raw.len();
    let mut lo: usize = 0;
    while lo < m && raw[lo] == 95
        invariant
            m == raw@.len(),
            lo <= m,
            raw@.map_values(|b: u8| b as char) == core,
            forall|j: int| 0 <= j < lo ==> raw@[j] == 95,
        decreases m - lo,
    {
        lo = lo + 1;
    }
    let mut hi: usize = m;
    while hi > lo && raw[hi - 1] == 95
        invariant
            m == raw@.len(),
            lo <= hi <= m,
            raw@.map_values(|b: u8| b as char) == core,
            forall|j: int| 0 <= j < lo ==> raw@[j] == 95,
            forall|j: int| hi <= j < m ==> raw@[j] == 95,
        decreases hi,
    {
        hi = hi - 1;
    }
    let mut trimmed: Vec<u8> = Vec::new();
    let mut k: usize = lo;
    while k < hi
        invariant
            m == raw@.len(),
            lo <= k <= hi <= m,
            trimmed@ == raw@.subrange(lo as int, k as int),
        decreases hi - k,
    {
        trimmed.push(raw[k]);
        proof {
            assert(trimmed@ =~= raw@.subrange(lo as int, k + 1));
        }
        k = k + 1;
    }
    proof {
        assert(forall|j: int| 0 <= j < core.len() ==> core[j] == raw@[j] as char);
        assert forall|j: int| 0 <= j < lo implies core[j] == '_' by {
            assert(core[j] == raw@[j] as char);
        }
        if (lo as int) < core.len() {
            assert(core[lo as int] == raw@[lo as int] as char);
            assert(raw@[lo as int] != 95);
            assert(core[lo as int] != '_');
        }
        lemma_trim_underscore_front_subrange(core, lo as int);
        let mid = core.subrange(lo as int, m as int);
        assert forall|j: int| hi - lo <= j < mid.len() implies mid[j] == '_' by {
            assert(mid[j] == core[lo + j]);
            assert(core[lo + j] == raw@[lo + j] as char);
        }
        if hi > lo {
            assert(mid[hi - lo - 1] == core[hi - 1]);
            assert(core[hi - 1] == raw@[hi - 1] as char);
            assert(mid[hi - lo - 1] != '_');
        }
        lemma_trim_underscore_back_subrange(mid, hi - lo);
        assert(mid.subrange(0, hi - lo) =~= core.subrange(lo as int, hi as int));
        assert(forall|j: int| 0 <= j < trimmed@.len() ==> trimmed@[j] < 128);
        assert(trimmed@.map_values(|b: u8| b as char) =~= core.subrange(lo as int, hi as int));
    }
    ascii_string_of_bytes(trimmed)
}

// ---------------------------------------------------------------------------
// Overlay resolution.
// ---------------------------------------------------------------------------

/// Which overlay a scene would use for verification: the explicit overlay
/// path when one is configured, else the model's default asset path when a
/// model is set, else none.
pub open spec fn spec_overlay_for_verify(scene: SceneConfig, config_dir: Seq<char>) -> Option<
    (Seq<char>, OverlaySource),
> {
    match scene.phone.overlay {
        Some(p) => Some((spec_resolve_path(config_dir, p@), OverlaySource::Explicit)),
        None => match scene.phone.model {
            Some(m) => Some(
                (spec_default_model_overlay_path(config_dir, m), OverlaySource::ModelDefault),
            ),
            None => None,
        },
    }
}

/// Resolves the overlay candidate of a scene for verification; no file
/// system is consulted.
pub fn resolve_overlay_for_verify(scene: &SceneConfig, config_dir: &str) -> (r: Option<
    ResolvedOverlay,
>)
    ensures
        match r {
            Some(o) => spec_overlay_for_verify(*scene, config_dir@) matches Some(so) && o.path@
                == so.0 && o.source == so.1,
            None => spec_overlay_for_verify(*scene, config_dir@) is None,
        },
{
    match &scene.phone.overlay {
        Some(p) => Some(
            ResolvedOverlay {
                path: resolve_path(config_dir, p.as_str()),
                source: OverlaySource::Explicit,
            },
        ),
        None => {
            match scene.phone.model {
                Some(m) => Some(
                    ResolvedOverlay {
                        path: default_model_overlay_path(config_dir, m),
                        source: OverlaySource::ModelDefault,
                    },
                ),
                None => None,
            }
        },
    }
}

/// Resolves the overlay a composition will use: the explicit path when one
/// is configured; else the model's default asset path, but only when that
/// file exists (the caller probes the file system and passes the answer).
pub fn resolve_overlay_for_compose(scene: &SceneConfig, config_dir: &str, model_default_exists:
    bool) -> (r: Option<ResolvedOverlay>)
    ensures
        match scene.phone.overlay {
            Some(p) => r matches Some(o) && o.path@ == spec_resolve_path(config_dir@, p@)
                && o.source == OverlaySource::Explicit,
            None => match scene.phone.model {
                Some(m) => if model_default_exists {
                    r matches Some(o) && o.path@ == spec_default_model_overlay_path(config_dir@, m)
                        && o.source == OverlaySource::ModelDefault
                } else {
                    r is None
                },
                None => r is None,
            },
        },
{
    match &scene.phone.overlay {
        Some(p) => Some(
            ResolvedOverlay {
                path: resolve_path(config_dir, p.as_str()),
                source: OverlaySource::Explicit,
            },
        ),
        None => {
            match scene.phone.model {
                Some(m) => {
                    if model_default_exists {
                        Some(
                            ResolvedOverlay {
                                path: default_model_overlay_path(config_dir, m),
                                source: OverlaySource::ModelDefault,
                            },
                        )
                    } else {
                        None
                    }
                },
                None => None,
            }
        },
    }
}

// ---------------------------------------------------------------------------
// Overlay verification over probed file facts.
// ---------------------------------------------------------------------------

/// The decoded facts of one overlay file, as probed by the caller.
#[derive(Clone, Copy, Debug, PartialEq, Eq, Structural)]
pub struct OverlayMeta {
    pub width: u32,
    pub height: u32,
    pub has_transparency: bool,
}

/// What the caller found on disk for one overlay candidate.
#[derive(Clone, Debug)]
pub struct OverlayProbe {
    /// The file exists.
    pub exists: bool,
    /// The decoded image facts; `None` when decoding failed.
    pub meta: Option<OverlayMeta>,
    /// The decoder's message when decoding failed.
    pub decode_error: String,
}

/// How many warnings one probed overlay candidate yields.
pub open spec fn spec_probe_warnings(scene: SceneConfig, path: Seq<char>, source: OverlaySource,
    probe: OverlayProbe) -> int {
    if !probe.exists {
        if source == OverlaySource::ModelDefault {
            1
        } else {
            0
        }
    } else {
        (if !spec_is_png_file(path) {
            1int
        } else {
            0
        }) + (match probe.meta {
            Some(meta) => if meta.width != scene.phone.width || meta.height != scene.phone.height {
                1int
            } else {
                0
            },
            None => 0,
        })
    }
}

/// How many errors one probed overlay candidate yields.
pub open spec fn spec_probe_errors(scene: SceneConfig, source: OverlaySource, probe: OverlayProbe) -> int {
    if !probe.exists {
        if source == OverlaySource::Explicit {
            1
        } else {
            0
        }
    } else {
        match probe.meta {
            Some(meta) => if !meta.has_transparency {
                1int
            } else {
                0
            },
            None => 1,
        }
    }
}

/// The findings one probed overlay candidate yields, in emission order:
/// the severity and the message of each.
pub open spec fn spec_probe_issue_list(
    scene: SceneConfig,
    path: Seq<char>,
    source: OverlaySource,
    probe: OverlayProbe,
) -> Seq<(VerifyLevel, Seq<char>)> {
    if !probe.exists {
        match source {
            OverlaySource::Explicit => seq![(VerifyLevel::Error, "overlay not found: "@ + path)],
            OverlaySource::ModelDefault => seq![
                (VerifyLevel::Warning, "no auto overlay for model at "@ + path),
            ],
        }
    } else {
        (if !spec_is_png_file(path) {
            seq![(VerifyLevel::Warning, "overlay should be a PNG: "@ + path)]
        } else {
            Seq::<(VerifyLevel, Seq<char>)>::empty()
        }) + (match probe.meta {
            Some(meta) => (if !meta.has_transparency {
                seq![(VerifyLevel::Error, "overlay has no transparency: "@ + path)]
            } else {
                Seq::<(VerifyLevel, Seq<char>)>::empty()
            }) + (if meta.width != scene.phone.width || meta.height != scene.phone.height {
                seq![(VerifyLevel::Warning, "overlay size does not match phone rect: "@ + path)]
            } else {
                Seq::<(VerifyLevel, Seq<char>)>::empty()
            }),
            None => seq![
                (
                    VerifyLevel::Error,
                    "failed reading overlay "@ + path + ": "@ + probe.decode_error@,
                ),
            ],
        })
    }
}

/// A candidate yields exactly one issue per warning or error it counts.
proof fn lemma_probe_issue_counts(
    scene: SceneConfig,
    path: Seq<char>,
    source: OverlaySource,
    probe: OverlayProbe,
)
    ensures
        spec_probe_issue_list(scene, path, source, probe).len() == spec_probe_warnings(
            scene,
            path,
            source,
            probe,
        ) + spec_probe_errors(scene, source, probe),
{
}

fn push_issue(summary: &mut VerifySummary, scene_id: String, level: VerifyLevel, message: String)
    requires
        old(summary).warnings < 1000000000,
        old(summary).errors < 1000000000,
    ensures
        final(summary).scene_count == old(summary).scene_count,
        final(summary).checked_overlays == old(summary).checked_overlays,
        final(summary).warnings == old(summary).warnings + (if level == VerifyLevel::Warning {
            1int
        } else {
            0
        }),
        final(summary).errors == old(summary).errors + (if level == VerifyLevel::Error {
            1int
        } else {
            0
        }),
        final(summary).issues@.len() == old(summary).issues@.len() + 1,
        forall|k: int|
            0 <= k < old(summary).issues@.len() ==> final(summary).issues@[k] == old(
                summary,
            ).issues@[k],
        final(summary).issues@[old(summary).issues@.len() as int].scene_id@ == scene_id@,
        final(summary).issues@[old(summary).issues@.len() as int].level == level,
        final(summary).issues@[old(summary).issues@.len() as int].message@ == message@,
{
    match level {
        VerifyLevel::Warning => {
            summary.warnings = summary.warnings + 1;
        },
        VerifyLevel::Error => {
            summary.errors = summary.errors + 1;
        },
    }
    summary.issues.push(VerifyIssue { scene_id, level, message });
}

/// Checks one scene's overlay candidate against its probe, adding the
/// findings to the summary: a missing explicit overlay is an error, a
/// missing model default a warning; a present file yields a warning when it
/// is not a PNG, an error when it does not decode or has no transparency,
/// and a warning when its size differs from the phone rectangle.  The
/// appended issues are exactly the candidate's finding list, labeled with
/// the scene's identifier.
fn verify_one_overlay(
    summary: &mut VerifySummary,
    scene: &SceneConfig,
    overlay: &ResolvedOverlay,
    probe: &OverlayProbe,
)
    requires
        old(summary).warnings < 999999998,
        old(summary).errors < 999999998,
    ensures
        final(summary).scene_count == old(summary).scene_count,
        final(summary).checked_overlays == old(summary).checked_overlays,
        final(summary).warnings == old(summary).warnings + spec_probe_warnings(
            *scene,
            overlay.path@,
            overlay.source,
            *probe,
        ),
        final(summary).errors == old(summary).errors + spec_probe_errors(
            *scene,
            overlay.source,
            *probe,
        ),
        final(summary).issues@.len() == old(summary).issues@.len() + spec_probe_issue_list(
            *scene,
            overlay.path@,
            overlay.source,
            *probe,
        ).len(),
        forall|k: int|
            0 <= k < old(summary).issues@.len() ==> final(summary).issues@[k] == old(
                summary,
            ).issues@[k],
        forall|k: int|
            old(summary).issues@.len() <= k < final(summary).issues@.len() ==> {
                let issue = #[trigger] final(summary).issues@[k];
                let entry = spec_probe_issue_list(*scene, overlay.path@, overlay.source, *probe)[k
                    - old(summary).issues@.len()];
                issue.scene_id@ == scene.id@ && issue.level == entry.0 && issue.message@ == entry.1
            },
{
    let ghost list = spec_probe_issue_list(*scene, overlay.path@, overlay.source, *probe);
    if !probe.exists {
        match overlay.source {
            OverlaySource::Explicit => {
                let mut msg = "overlay not found: ".to_owned();
                msg.append(overlay.path.as_str());
                push_issue(summary, scene.id.clone(), VerifyLevel::Error, msg);
            },
            OverlaySource::ModelDefault => {
                let mut msg = "no auto overlay for model at ".to_owned();
                msg.append(overlay.path.as_str());
                push_issue(summary, scene.id.clone(), VerifyLevel::Warning, msg);
            },
        }
        return ;
    }
    let ghost png_part: Seq<(VerifyLevel, Seq<char>)> = if !spec_is_png_file(overlay.path@) {
        seq![(VerifyLevel::Warning, "overlay should be a PNG: "@ + overlay.path@)]
    } else {
        Seq::<(VerifyLevel, Seq<char>)>::empty()
    };
    if !is_png_file(overlay.path.as_str()) {
        let mut msg = "overlay should be a PNG: ".to_owned();
        msg.append(overlay.path.as_str());
        push_issue(summary, scene.id.clone(), VerifyLevel::Warning, msg);
    }
    match &probe.meta {
        Some(meta) => {
            let ghost trans_part: Seq<(VerifyLevel, Seq<char>)> = if !meta.has_transparency {
                seq![(VerifyLevel::Error, "overlay has no transparency: "@ + overlay.path@)]
            } else {
                Seq::<(VerifyLevel, Seq<char>)>::empty()
            };
            let ghost size_part: Seq<(VerifyLevel, Seq<char>)> = if meta.width
                != scene.phone.width || meta.height != scene.phone.height {
                seq![
                    (
                        VerifyLevel::Warning,
                        "overlay size does not match phone rect: "@ + overlay.path@,
                    ),
                ]
            } else {
                Seq::<(VerifyLevel, Seq<char>)>::empty()
            };
            if !meta.has_transparency {
                let mut msg = "overlay has no transparency: ".to_owned();
                msg.append(overlay.path.as_str());
                push_issue(summary, scene.id.clone(), VerifyLevel::Error, msg);
            }
            if meta.width != scene.phone.width || meta.height != scene.phone.height {
                let mut msg = "overlay size does not match phone rect: ".to_owned();
                msg.append(overlay.path.as_str());
                push_issue(summary, scene.id.clone(), VerifyLevel::Warning, msg);
            }
            proof {
                assert(list == png_part + (trans_part + size_part));
            }
        },
        None => {
            let mut msg = "failed reading overlay ".to_owned();
            msg.append(overlay.path.as_str());
            msg.append(": ");
            msg.append(probe.decode_error.as_str());
            push_issue(summary, scene.id.clone(), VerifyLevel::Error, msg);
            proof {
                assert(list == png_part + seq![
                    (
                        VerifyLevel::Error,
                        "failed reading overlay "@ + overlay.path@ + ": "@
                            + probe.decode_error@,
                    ),
                ]);
            }
        },
    }
}

/// The warnings of the first `n` scenes, given their probes.
pub open spec fn spec_total_warnings(
    scenes: Seq<SceneConfig>,
    config_dir: Seq<char>,
    probes: Seq<Option<OverlayProbe>>,
    n: int,
) -> int
    decreases n,
{
    if n <= 0 {
        0
    } else {
        spec_total_warnings(scenes, config_dir, probes, n - 1) + (match spec_overlay_for_verify(
            scenes[n - 1],
            config_dir,
        ) {
            Some(so) => match probes[n - 1] {
                Some(probe) => spec_probe_warnings(scenes[n - 1], so.0, so.1, probe),
                None => 0,
            },
            None => 0,
        })
    }
}

/// The errors of the first `n` scenes, given their probes.
pub open spec fn spec_total_errors(
    scenes: Seq<SceneConfig>,
    config_dir: Seq<char>,
    probes: Seq<Option<OverlayProbe>>,
    n: int,
) -> int
    decreases n,
{
    if n <= 0 {
        0
    } else {
        spec_total_errors(scenes, config_dir, probes, n - 1) + (match spec_overlay_for_verify(
            scenes[n - 1],
            config_dir,
        ) {
            Some(so) => match probes[n - 1] {
                Some(probe) => spec_probe_errors(scenes[n - 1], so.1, probe),
                None => 0,
            },
            None => 0,
        })
    }
}

/// How many of the first `n` scenes have an overlay candidate with a probe.
pub open spec fn spec_total_checked(
    scenes: Seq<SceneConfig>,
    config_dir: Seq<char>,
    probes: Seq<Option<OverlayProbe>>,
    n: int,
) -> int
    decreases n,
{
    if n <= 0 {
        0
    } else {
        spec_total_checked(scenes, config_dir, probes, n - 1) + (match spec_overlay_for_verify(
            scenes[n - 1],
            config_dir,
        ) {
            Some(so) => match probes[n - 1] {
                Some(probe) => 1int,
                None => 0,
            },
            None => 0,
        })
    }
}

/// One candidate's findings, each labeled with the owning scene's
/// identifier, as `(scene id, level, message)` triples.
pub open spec fn spec_scene_issue_list(
    scene: SceneConfig,
    path: Seq<char>,
    source: OverlaySource,
    probe: OverlayProbe,
) -> Seq<(Seq<char>, VerifyLevel, Seq<char>)> {
    Seq::new(
        spec_probe_issue_list(scene, path, source, probe).len(),
        |k: int|
            (
                scene.id@,
                spec_probe_issue_list(scene, path, source, probe)[k].0,
                spec_probe_issue_list(scene, path, source, probe)[k].1,
            ),
    )
}

/// The findings of the first `n` scenes, in scene order.
pub open spec fn spec_total_issues(
    scenes: Seq<SceneConfig>,
    config_dir: Seq<char>,
    probes: Seq<Option<OverlayProbe>>,
    n: int,
) -> Seq<(Seq<char>, VerifyLevel, Seq<char>)>
    decreases n,
{
    if n <= 0 {
        Seq::<(Seq<char>, VerifyLevel, Seq<char>)>::empty()
    } else {
        spec_total_issues(scenes, config_dir, probes, n - 1) + (match spec_overlay_for_verify(
            scenes[n - 1],
            config_dir,
        ) {
            Some(so) => match probes[n - 1] {
                Some(probe) => spec_scene_issue_list(scenes[n - 1], so.0, so.1, probe),
                None => Seq::<(Seq<char>, VerifyLevel, Seq<char>)>::empty(),
            },
            None => Seq::<(Seq<char>, VerifyLevel, Seq<char>)>::empty(),
        })
    }
}

/// Verifies the overlay candidates of all scenes against the probed file
/// facts (one optional probe per scene, aligned by index).  The counts of
/// checked candidates, warnings and errors are exactly the sums of the
/// per-candidate rules, and the issue list is exactly the per-candidate
/// findings in scene order — one issue per warning or error, labeled with
/// its scene's identifier.
#[verifier::rlimit(60)]
pub fn verify_overlays(scenes: &Vec<SceneConfig>, config_dir: &str, probes: &Vec<
    Option<OverlayProbe>,
>) -> (summary: VerifySummary)
    requires
        probes@.len() == scenes@.len(),
        scenes@.len() < 1000,
    ensures
        summary.scene_count == scenes@.len(),
        summary.checked_overlays == spec_total_checked(
            scenes@,
            config_dir@,
            probes@,
            scenes@.len() as int,
        ),
        summary.warnings == spec_total_warnings(
            scenes@,
            config_dir@,
            probes@,
            scenes@.len() as int,
        ),
        summary.errors == spec_total_errors(scenes@, config_dir@, probes@, scenes@.len() as int),
        summary.issues@.len() == summary.warnings + summary.errors,
        summary.issues@.len() == spec_total_issues(
            scenes@,
            config_dir@,
            probes@,
            scenes@.len() as int,
        ).len(),
        forall|k: int|
            0 <= k < summary.issues@.len() ==> {
                let entry = spec_total_issues(
                    scenes@,
                    config_dir@,
                    probes@,
                    scenes@.len() as int,
                )[k];
                (#[trigger] summary.issues@[k]).scene_id@ == entry.0 && summary.issues@[k].level
                    == entry.1 && summary.issues@[k].message@ == entry.2
            },
{
    let n = scenes.len();
    let mut summary = VerifySummary {
        scene_count: n,
        checked_overlays: 0,
        warnings: 0,
        errors: 0,
        issues: Vec::new(),
    };
    let mut i: usize = 0;
    while i < n
        invariant
            n == scenes@.len(),
            n < 1000,
            probes@.len() == n,
            i <= n,
            summary.scene_count == n,
            summary.checked_overlays == spec_total_checked(scenes@, config_dir@, probes@, i as int),
            summary.warnings == spec_total_warnings(scenes@, config_dir@, probes@, i as int),
            summary.errors == spec_total_errors(scenes@, config_dir@, probes@, i as int),
            summary.checked_overlays <= i,
            summary.warnings <= 2 * i,
            summary.errors <= 2 * i,
            summary.issues@.len() == summary.warnings + summary.errors,
            summary.issues@.len() == spec_total_issues(scenes@, config_dir@, probes@, i as int).len(),
            forall|k: int|
                0 <= k < summary.issues@.len() ==> {
                    let entry = spec_total_issues(scenes@, config_dir@, probes@, i as int)[k];
                    (#[trigger] summary.issues@[k]).scene_id@ == entry.0 && summary.issues@[k].level
                        == entry.1 && summary.issues@[k].message@ == entry.2
                },
        decreases n - i,
    {
        let scene = &scenes[i];
        let ghost prev = spec_total_issues(scenes@, config_dir@, probes@, i as int);
        let resolved = resolve_overlay_for_verify(scene, config_dir);
        match (resolved, &probes[i]) {
            (Some(overlay), Some(probe)) => {
                summary.checked_overlays = summary.checked_overlays + 1;
                proof {
                    lemma_probe_issue_counts(*scene, overlay.path@, overlay.source, *probe);
                }
                verify_one_overlay(&mut summary, scene, &overlay, probe);
                proof {
                    let block = spec_scene_issue_list(
                        scenes@[i as int],
                        overlay.path@,
                        overlay.source,
                        *probe,
                    );
                    let cur = spec_total_issues(scenes@, config_dir@, probes@, i + 1);
                    assert(cur == prev + block);
                    assert forall|k: int| 0 <= k < summary.issues@.len() implies {
                        let entry = cur[k];
                        (#[trigger] summary.issues@[k]).scene_id@ == entry.0
                            && summary.issues@[k].level == entry.1 && summary.issues@[k].message@
                            == entry.2
                    } by {
                        if k < prev.len() {
                            assert(cur[k] == prev[k]);
                        } else {
                            assert(cur[k] == block[k - prev.len()]);
                        }
                    }
                }
            },
            _ => {
                proof {
                    let cur = spec_total_issues(scenes@, config_dir@, probes@, i + 1);
                    assert(cur == prev + Seq::<(Seq<char>, VerifyLevel, Seq<char>)>::empty());
                    assert(cur =~= prev);
                }
            },
        }
        i = i + 1;
    }
    summary
}

// ---------------------------------------------------------------------------
// Import decisions.
// ---------------------------------------------------------------------------

/// What an import run does with one directory entry.
#[derive(Clone, Debug, PartialEq, Eq)]
pub enum ImportAction {
    /// Not a regular file: passed over without a note.
    Ignore,
    /// Skipped, with the reason for the notes.
    Skip { reason: String },
    /// Imported under the normalized slug file name.
    Import { dest_name: String },
}

/// Decides what to do with one entry of the source directory: only regular
/// `.png` files whose stem normalizes to a nonempty slug and which decode
/// with transparency are imported, and an existing destination is only
/// replaced when overwriting is requested.  The destination name is the
/// slug with the `.png` extension.
pub fn import_decision(
    file_name: &str,
    stem: &str,
    is_file: bool,
    meta: Option<OverlayMeta>,
    dest_exists: bool,
    overwrite: bool,
) -> (r: ImportAction)
    requires
        stem@.len() <= 1000000,
    ensures
        !is_file ==> r == ImportAction::Ignore,
        is_file && !spec_is_png_file(file_name@) ==> r matches ImportAction::Skip { .. },
        (is_file && spec_is_png_file(file_name@) && spec_normalize_frame_slug(stem@).len() == 0)
            ==> r matches ImportAction::Skip { .. },
        (is_file && spec_is_png_file(file_name@) && spec_normalize_frame_slug(stem@).len() > 0
            && !(meta matches Some(m) && m.has_transparency)) ==> r matches ImportAction::Skip {
            ..
        },
        (is_file && spec_is_png_file(file_name@) && spec_normalize_frame_slug(stem@).len() > 0 && (
        meta matches Some(m) && m.has_transparency) && dest_exists && !overwrite) ==> r
            matches ImportAction::Skip { .. },
        (is_file && spec_is_png_file(file_name@) && spec_normalize_frame_slug(stem@).len() > 0 && (
        meta matches Some(m) && m.has_transparency) && (!dest_exists || overwrite)) ==> (r
            matches ImportAction::Import { dest_name } && dest_name@ == spec_normalize_frame_slug(
            stem@,
        ) + ".png"@),
{
    if !is_file {
        return ImportAction::Ignore;
    }
    if !is_png_file(file_name) {
        return ImportAction::Skip { reason: "only .png files are supported".to_owned() };
    }
    let slug = normalize_frame_slug(stem);
    if slug.as_str().unicode_len() == 0 {
        return ImportAction::Skip {
            reason: "filename cannot be normalized to a slug".to_owned(),
        };
    }
    match meta {
        Some(m) => {
            if !m.has_transparency {
                return ImportAction::Skip {
                    reason: "overlay has no transparency (frame must include transparent cutout)".to_owned(),
                };
            }
        },
        None => {
            return ImportAction::Skip { reason: "overlay could not be decoded".to_owned() };
        },
    }
    if dest_exists && !overwrite {
        return ImportAction::Skip {
            reason: "destination exists (use --overwrite to replace)".to_owned(),
        };
    }
    let mut dest = slug;
    dest.append(".png");
    ImportAction::Import { dest_name: dest }
}

} // verus!
