use vstd::prelude::*;
use crate::config::PhoneModel;
use crate::devices::spec_lower_code;
use crate::strutil::str_eq;

verus! {

/// One virtual device, as reported by the device manager.
#[derive(Clone, Debug)]
pub struct Simulator {
    pub name: String,
    pub udid: String,
    pub state: String,
    pub is_available: bool,
    pub device_type: String,
    pub runtime: String,
    pub phone_model: Option<PhoneModel>,
}

/// Two simulator records carry the same data.
pub open spec fn spec_sim_eq(a: Simulator, b: Simulator) -> bool {
    &&& a.name@ == b.name@
    &&& a.udid@ == b.udid@
    &&& a.state@ == b.state@
    &&& a.is_available == b.is_available
    &&& a.device_type@ == b.device_type@
    &&& a.runtime@ == b.runtime@
    &&& a.phone_model == b.phone_model
}

impl Simulator {
    /// Whether the device is currently booted.
    pub fn is_booted(&self) -> (r: bool)
        ensures
            r == (self.state@ == "Booted"@),
    {
        str_eq(self.state.as_str(), "Booted")
    }
}

/// A field-by-field copy of a simulator record.
pub fn clone_simulator(s: &Simulator) -> (r: Simulator)
    ensures
        spec_sim_eq(*s, r),
{
    Simulator {
        name: s.name.clone(),
        udid: s.udid.clone(),
        state: s.state.clone(),
        is_available: s.is_available,
        device_type: s.device_type.clone(),
        runtime: s.runtime.clone(),
        phone_model: s.phone_model,
    }
}

// ---------------------------------------------------------------------------
// Model detection from the device-type identifier.
// ---------------------------------------------------------------------------

/// The start of the suffix after the last `.` of an identifier (0 when there
/// is no dot).
pub open spec fn spec_suffix_start(s: Seq<char>) -> int
    decreases s.len(),
{
    if s.len() == 0 {
        0
    } else if s[s.len() - 1] == '.' {
        s.len() as int
    } else {
        spec_suffix_start(s.drop_last())
    }
}

/// The phone model a device-type suffix stands for.  Recent models map to
/// themselves; a few older ones map to the closest current model; anything
/// else is unknown.
pub open spec fn spec_model_of_suffix(suffix: Seq<char>) -> Option<PhoneModel> {
    if suffix == "iPhone-16-Pro"@ {
        Some(PhoneModel::Iphone16Pro)
    } else if suffix == "iPhone-16-Pro-Max"@ {
        Some(PhoneModel::Iphone16ProMax)
    } else if suffix == "iPhone-17-Pro"@ {
        Some(PhoneModel::Iphone17Pro)
    } else if suffix == "iPhone-17-Pro-Max"@ {
        Some(PhoneModel::Iphone17ProMax)
    } else if suffix == "iPhone-15-Pro"@ {
        Some(PhoneModel::Iphone16Pro)
    } else if suffix == "iPhone-15-Pro-Max"@ {
        Some(PhoneModel::Iphone16ProMax)
    } else if suffix == "iPhone-15"@ {
        Some(PhoneModel::Iphone16Pro)
    } else if suffix == "iPhone-15-Plus"@ {
        Some(PhoneModel::Iphone16Pro)
    } else if suffix == "iPhone-14-Pro"@ {
        Some(PhoneModel::Iphone16Pro)
    } else if suffix == "iPhone-14-Pro-Max"@ {
        Some(PhoneModel::Iphone16ProMax)
    } else {
        None
    }
}

/// The phone model a full device-type identifier stands for.
pub open spec fn spec_detect_phone_model(s: Seq<char>) -> Option<PhoneModel> {
    spec_model_of_suffix(s.subrange(spec_suffix_start(s), s.len() as int))
}

proof fn lemma_suffix_start(s: Seq<char>, k: int)
    requires
        0 <= k <= s.len(),
        forall|j: int| k <= j < s.len() ==> s[j] != '.',
        k == 0 || s[k - 1] == '.',
    ensures
        spec_suffix_start(s) == k,
    decreases s.len() - k,
{
    if k == s.len() {
        if s.len() > 0 {
            assert(s[k - 1] == '.');
        }
    } else {
        assert(s[s.len() - 1] != '.');
        let t = s.drop_last();
        lemma_suffix_start(t, k);
    }
}

/// Maps a device-type identifier (its component after the last dot) to the
/// phone model it stands for, if any.
pub fn detect_phone_model(device_type: &str) -> (r: Option<PhoneModel>)
    ensures
        r == spec_detect_phone_model(device_type@),
{
    let n = device_type.unicode_len();
    let mut start: usize = n;
    while start > 0 && device_type.get_char(start - 1) != '.'
        invariant
            n == device_type@.len(),
            start <= n,
            forall|j: int| start <= j < n ==> device_type@[j] != '.',
        decreases start,
    {
        start = start - 1;
    }
    proof {
        lemma_suffix_start(device_type@, start as int);
    }
    let suffix = device_type.substring_char(start, n);
    if str_eq(suffix, "iPhone-16-Pro") {
        Some(PhoneModel::Iphone16Pro)
    } else if str_eq(suffix, "iPhone-16-Pro-Max") {
        Some(PhoneModel::Iphone16ProMax)
    } else if str_eq(suffix, "iPhone-17-Pro") {
        Some(PhoneModel::Iphone17Pro)
    } else if str_eq(suffix, "iPhone-17-Pro-Max") {
        Some(PhoneModel::Iphone17ProMax)
    } else if str_eq(suffix, "iPhone-15-Pro") {
        Some(PhoneModel::Iphone16Pro)
    } else if str_eq(suffix, "iPhone-15-Pro-Max") {
        Some(PhoneModel::Iphone16ProMax)
    } else if str_eq(suffix, "iPhone-15") {
        Some(PhoneModel::Iphone16Pro)
    } else if str_eq(suffix, "iPhone-15-Plus") {
        Some(PhoneModel::Iphone16Pro)
    } else if str_eq(suffix, "iPhone-14-Pro") {
        Some(PhoneModel::Iphone16Pro)
    } else if str_eq(suffix, "iPhone-14-Pro-Max") {
        Some(PhoneModel::Iphone16ProMax)
    } else {
        None
    }
}

// ---------------------------------------------------------------------------
// Finding a simulator by name or identifier.
// ---------------------------------------------------------------------------

/// The first index of the list satisfying the predicate.
pub open spec fn spec_first_where(sims: Seq<Simulator>, p: spec_fn(Simulator) -> bool) -> Option<
    int,
>
    decreases sims.len(),
{
    if sims.len() == 0 {
        None
    } else if p(sims[0]) {
        Some(0int)
    } else {
        match spec_first_where(sims.drop_first(), p) {
            Some(i) => Some(i + 1),
            None => None,
        }
    }
}

/// How many entries satisfy the predicate.
pub open spec fn spec_count_where(sims: Seq<Simulator>, p: spec_fn(Simulator) -> bool) -> int
    decreases sims.len(),
{
    if sims.len() == 0 {
        0
    } else {
        (if p(sims[0]) {
            1int
        } else {
            0
        }) + spec_count_where(sims.drop_first(), p)
    }
}

proof fn lemma_first_where_found(sims: Seq<Simulator>, p: spec_fn(Simulator) -> bool, k: int)
    requires
        0 <= k < sims.len(),
        forall|j: int| 0 <= j < k ==> !p(#[trigger] sims[j]),
        p(sims[k]),
    ensures
        spec_first_where(sims, p) == Some(k),
    decreases k,
{
    if k > 0 {
        lemma_first_where_found(sims.drop_first(), p, k - 1);
    }
}

proof fn lemma_first_where_none(sims: Seq<Simulator>, p: spec_fn(Simulator) -> bool)
    requires
        forall|j: int| 0 <= j < sims.len() ==> !p(#[trigger] sims[j]),
    ensures
        spec_first_where(sims, p) is None,
    decreases sims.len(),
{
    if sims.len() > 0 {
        lemma_first_where_none(sims.drop_first(), p);
    }
}

proof fn lemma_count_prefix(sims: Seq<Simulator>, p: spec_fn(Simulator) -> bool, k: int)
    requires
        0 <= k < sims.len(),
    ensures
        spec_count_where(sims.take(k + 1), p) == spec_count_where(sims.take(k), p) + (if p(
            sims[k],
        ) {
            1int
        } else {
            0
        }),
    decreases k,
{
    if k == 0 {
        assert(sims.take(1).drop_first() =~= sims.take(0));
    } else {
        assert(sims.take(k + 1).drop_first() =~= sims.drop_first().take(k));
        assert(sims.take(k).drop_first() =~= sims.drop_first().take(k - 1));
        lemma_count_prefix(sims.drop_first(), p, k - 1);
    }
}

/// An exact identifier match.
pub open spec fn p_udid(q: Seq<char>) -> spec_fn(Simulator) -> bool {
    |s: Simulator| s.udid@ == q
}

/// An exact name match.
pub open spec fn p_name(q: Seq<char>) -> spec_fn(Simulator) -> bool {
    |s: Simulator| s.name@ == q
}

/// A name match up to ASCII case.
pub open spec fn p_name_ci(q: Seq<char>) -> spec_fn(Simulator) -> bool {
    |s: Simulator| crate::devices::spec_eq_ignore_case(s.name@, q)
}

/// The needle matches the hay at offset `off`, comparing ASCII
/// case-insensitively.
pub open spec fn spec_match_at(hay: Seq<char>, needle: Seq<char>, off: int) -> bool {
    0 <= off && off + needle.len() <= hay.len() && (forall|t: int|
        0 <= t < needle.len() ==> spec_lower_code(#[trigger] hay[off + t]) == spec_lower_code(
            needle[t],
        ))
}

/// A case-folded substring match of the query inside the name.
pub open spec fn spec_contains_ci(hay: Seq<char>, needle: Seq<char>) -> bool {
    exists|off: int| #[trigger] spec_match_at(hay, needle, off)
}

/// A partial (substring, case-insensitive) name match.
pub open spec fn p_name_partial(q: Seq<char>) -> spec_fn(Simulator) -> bool {
    |s: Simulator| spec_contains_ci(s.name@, q)
}

/// Whether `needle` occurs in `hay`, comparing ASCII case-insensitively.
pub fn contains_ci(hay: &str, needle: &str) -> (r: bool)
    ensures
        r == spec_contains_ci(hay@, needle@),
{
    let nh = hay.unicode_len();
    let nn = needle.unicode_len();
    if nn > nh {
        return false;
    }
    let mut off: usize = 0;
    while off <= nh - nn
        invariant
            nh == hay@.len(),
            nn == needle@.len(),
            nn <= nh,
            off <= nh - nn + 1,
            forall|o: int| 0 <= o < off ==> !spec_match_at(hay@, needle@, o),
        decreases nh + 1 - nn - off,
    {
        let mut t: usize = 0;
        let mut ok = true;
        while t < nn
            invariant
                nh == hay@.len(),
                nn == needle@.len(),
                off + nn <= nh,
                t <= nn,
                ok ==> forall|u: int|
                    0 <= u < t ==> spec_lower_code(#[trigger] hay@[off + u]) == spec_lower_code(
                        needle@[u],
                    ),
                !ok ==> !spec_match_at(hay@, needle@, off as int),
            ensures
                ok ==> spec_match_at(hay@, needle@, off as int),
                !ok ==> !spec_match_at(hay@, needle@, off as int),
            decreases nn - t,
        {
            let hc = hay.get_char(off + t) as u32;
            let nc = needle.get_char(t) as u32;
            let hl = if 65 <= hc && hc <= 90 {
                hc + 32
            } else {
                hc
            };
            let nl = if 65 <= nc && nc <= 90 {
                nc + 32
            } else {
                nc
            };
            if hl != nl {
                ok = false;
                proof {
                    assert(spec_lower_code(hay@[off as int + t as int]) != spec_lower_code(
                        needle@[t as int],
                    ));
                }
                break ;
            }
            t = t + 1;
        }
        if ok {
            proof {
                assert(spec_match_at(hay@, needle@, off as int));
            }
            return true;
        }
        off = off + 1;
    }
    proof {
        if spec_contains_ci(hay@, needle@) {
            let o = choose|o: int| spec_match_at(hay@, needle@, o);
            assert(o < off);
            assert(false);
        }
    }
    false
}

/// The index `find_simulator` returns: the first exact identifier match,
/// else the first exact name match, else the first name match up to case,
/// else — when exactly one name contains the query case-insensitively —
/// that one; else nothing.
pub open spec fn spec_find_index(sims: Seq<Simulator>, q: Seq<char>) -> Option<int> {
    if spec_first_where(sims, p_udid(q)) is Some {
        spec_first_where(sims, p_udid(q))
    } else if spec_first_where(sims, p_name(q)) is Some {
        spec_first_where(sims, p_name(q))
    } else if spec_first_where(sims, p_name_ci(q)) is Some {
        spec_first_where(sims, p_name_ci(q))
    } else if spec_count_where(sims, p_name_partial(q)) == 1 {
        spec_first_where(sims, p_name_partial(q))
    } else {
        None
    }
}

fn first_udid_match(sims: &Vec<Simulator>, query: &str) -> (r: Option<usize>)
    ensures
        match r {
            Some(i) => i < sims@.len() && spec_first_where(sims@, p_udid(query@)) == Some(i as int),
            None => spec_first_where(sims@, p_udid(query@)) is None,
        },
{
    let mut i: usize = 0;
    while i < sims.len()
        invariant
            i <= sims@.len(),
            forall|j: int| 0 <= j < i ==> !p_udid(query@)(#[trigger] sims@[j]),
        decreases sims@.len() - i,
    {
        if str_eq(sims[i].udid.as_str(), query) {
            proof {
                lemma_first_where_found(sims@, p_udid(query@), i as int);
            }
            return Some(i);
        }
        i = i + 1;
    }
    proof {
        lemma_first_where_none(sims@, p_udid(query@));
    }
    None
}

fn first_name_match(sims: &Vec<Simulator>, query: &str) -> (r: Option<usize>)
    ensures
        match r {
            Some(i) => i < sims@.len() && spec_first_where(sims@, p_name(query@)) == Some(i as int),
            None => spec_first_where(sims@, p_name(query@)) is None,
        },
{
    let mut i: usize = 0;
    while i < sims.len()
        invariant
            i <= sims@.len(),
            forall|j: int| 0 <= j < i ==> !p_name(query@)(#[trigger] sims@[j]),
        decreases sims@.len() - i,
    {
        if str_eq(sims[i].name.as_str(), query) {
            proof {
                lemma_first_where_found(sims@, p_name(query@), i as int);
            }
            return Some(i);
        }
        i = i + 1;
    }
    proof {
        lemma_first_where_none(sims@, p_name(query@));
    }
    None
}

fn first_name_ci_match(sims: &Vec<Simulator>, query: &str) -> (r: Option<usize>)
    ensures
        match r {
            Some(i) => i < sims@.len() && spec_first_where(sims@, p_name_ci(query@)) == Some(
                i as int,
            ),
            None => spec_first_where(sims@, p_name_ci(query@)) is None,
        },
{
    let mut i: usize = 0;
    while i < sims.len()
        invariant
            i <= sims@.len(),
            forall|j: int| 0 <= j < i ==> !p_name_ci(query@)(#[trigger] sims@[j]),
        decreases sims@.len() - i,
    {
        if crate::devices::ascii_eq_ignore_case(sims[i].name.as_str(), query) {
            proof {
                lemma_first_where_found(sims@, p_name_ci(query@), i as int);
            }
            return Some(i);
        }
        i = i + 1;
    }
    proof {
        lemma_first_where_none(sims@, p_name_ci(query@));
    }
    None
}

/// Finds a simulator by exact identifier, exact name, case-insensitive
/// name, or unique case-insensitive partial name, in that order.  With no
/// simulators, no match, or an ambiguous partial match, the error message
/// says so.
pub fn find_simulator(sims: &Vec<Simulator>, query: &str) -> (r: Result<Simulator, String>)
    ensures
        match r {
            Ok(s) => spec_find_index(sims@, query@) matches Some(i) && spec_sim_eq(
                sims@[i],
                s,
            ),
            Err(_) => sims@.len() == 0 || spec_find_index(sims@, query@) is None,
        },
{
    if sims.len() == 0 {
        return Err("no available simulators found".to_owned());
    }
    match first_udid_match(sims, query) {
        Some(i) => {
            return Ok(clone_simulator(&sims[i]));
        },
        None => {},
    }
    match first_name_match(sims, query) {
        Some(i) => {
            return Ok(clone_simulator(&sims[i]));
        },
        None => {},
    }
    match first_name_ci_match(sims, query) {
        Some(i) => {
            return Ok(clone_simulator(&sims[i]));
        },
        None => {},
    }
    let mut count: usize = 0;
    let mut first: usize = 0;
    let mut found = false;
    let mut i: usize = 0;
    while i < sims.len()
        invariant
            i <= sims@.len(),
            count == spec_count_where(sims@.take(i as int), p_name_partial(query@)),
            count <= i,
            found == (count > 0),
            found ==> first < i && spec_first_where(sims@, p_name_partial(query@)) == Some(
                first as int,
            ),
            !found ==> forall|j: int| 0 <= j < i ==> !p_name_partial(query@)(#[trigger] sims@[j]),
        decreases sims@.len() - i,
    {
        proof {
            lemma_count_prefix(sims@, p_name_partial(query@), i as int);
        }
        if contains_ci(sims[i].name.as_str(), query) {
            if !found {
                first = i;
                found = true;
                proof {
                    lemma_first_where_found(sims@, p_name_partial(query@), i as int);
                }
            }
            count = count + 1;
        }
        i = i + 1;
    }
    proof {
        assert(sims@.take(sims@.len() as int) =~= sims@);
        if !found {
            lemma_first_where_none(sims@, p_name_partial(query@));
        }
    }
    if count == 1 {
        Ok(clone_simulator(&sims[first]))
    } else if count == 0 {
        let mut msg = "no simulator found matching '".to_owned();
        msg.append(query);
        msg.append("'");
        Err(msg)
    } else {
        let mut msg = "multiple simulators match '".to_owned();
        msg.append(query);
        msg.append("', please be more specific");
        Err(msg)
    }
}

/// The booted entries of a list, in their original order.
pub open spec fn spec_booted(sims: Seq<Simulator>) -> Seq<Simulator>
    decreases sims.len(),
{
    if sims.len() == 0 {
        Seq::<Simulator>::empty()
    } else {
        (if sims[0].state@ == "Booted"@ {
            seq![sims[0]]
        } else {
            Seq::<Simulator>::empty()
        }) + spec_booted(sims.drop_first())
    }
}

proof fn lemma_booted_prefix(sims: Seq<Simulator>, k: int)
    requires
        0 <= k < sims.len(),
    ensures
        spec_booted(sims.take(k + 1)) == spec_booted(sims.take(k)) + (if sims[k].state@
            == "Booted"@ {
            seq![sims[k]]
        } else {
            Seq::<Simulator>::empty()
        }),
    decreases k,
{
    let tail = if sims[k].state@ == "Booted"@ {
        seq![sims[k]]
    } else {
        Seq::<Simulator>::empty()
    };
    if k == 0 {
        assert(sims.take(1).drop_first() =~= Seq::<Simulator>::empty());
        assert(sims.take(0) =~= Seq::<Simulator>::empty());
        assert(sims.take(1)[0] == sims[0]);
        assert(spec_booted(sims.take(1)) =~= spec_booted(sims.take(0)) + tail);
    } else {
        assert(sims.take(k + 1).drop_first() =~= sims.drop_first().take(k));
        assert(sims.take(k).drop_first() =~= sims.drop_first().take(k - 1));
        lemma_booted_prefix(sims.drop_first(), k - 1);
        assert(sims.take(k + 1)[0] == sims[0]);
        assert(sims.take(k)[0] == sims[0]);
        assert(sims.drop_first()[k - 1] == sims[k]);
        let head = if sims[0].state@ == "Booted"@ {
            seq![sims[0]]
        } else {
            Seq::<Simulator>::empty()
        };
        assert(head + (spec_booted(sims.drop_first().take(k - 1)) + tail) =~= (head + spec_booted(
            sims.drop_first().take(k - 1),
        )) + tail);
    }
}

/// Keeps exactly the booted simulators, in their original order: the result
/// is entry for entry the booted subsequence of the input.
pub fn find_booted_simulators(sims: &Vec<Simulator>) -> (r: Vec<Simulator>)
    ensures
        r@.len() == spec_booted(sims@).len(),
        forall|i: int| 0 <= i < r@.len() ==> spec_sim_eq(spec_booted(sims@)[i], #[trigger] r@[i]),
        forall|i: int|
            0 <= i < r@.len() ==> (#[trigger] r@[i]).state@ == "Booted"@,
{
    let mut out: Vec<Simulator> = Vec::new();
    let mut i: usize = 0;
    while i < sims.len()
        invariant
            i <= sims@.len(),
            out@.len() == spec_booted(sims@.take(i as int)).len(),
            forall|j: int|
                0 <= j < out@.len() ==> spec_sim_eq(
                    spec_booted(sims@.take(i as int))[j],
                    #[trigger] out@[j],
                ),
            forall|j: int| 0 <= j < out@.len() ==> (#[trigger] out@[j]).state@ == "Booted"@,
        decreases sims@.len() - i,
    {
        proof {
            lemma_booted_prefix(sims@, i as int);
        }
        if sims[i].is_booted() {
            let c = clone_simulator(&sims[i]);
            proof {
                assert(c.state@ == "Booted"@);
            }
            out.push(c);
        }
        i = i + 1;
    }
    proof {
        assert(sims@.take(sims@.len() as int) =~= sims@);
    }
    out
}

} // verus!
