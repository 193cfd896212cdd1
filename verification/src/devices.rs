//! Audio input device discovery: filtering, labeling, ordering, and
//! resolution of device identifiers.
//!
//! The host hands over raw device identifiers; this module keeps only
//! the abstraction-layer nodes that negotiate formats on the caller's
//! behalf, derives a human-friendly label from the card identifier
//! embedded in each id, removes duplicate labels, and orders the list
//! with the synthetic default first and the rest case-insensitively by
//! label.

use vstd::prelude::*;
use vstd::string::*;

use crate::errors::CoreError;

verus! {

/// ASCII lowercase of one character; everything outside `A`..`Z` is
/// unchanged.
pub open spec fn lower_char(c: char) -> char {
    if 65 <= c as u32 && c as u32 <= 90 {
        ((c as u32 + 32) as u8) as char
    } else {
        c
    }
}

/// Characterwise ASCII lowercase.
pub open spec fn lower_seq(s: Seq<char>) -> Seq<char> {
    Seq::new(s.len(), |i: int| lower_char(s[i]))
}

/// The needle occurs in the haystack starting at position `i`.
pub open spec fn match_at(h: Seq<char>, n: Seq<char>, i: int) -> bool {
    &&& 0 <= i
    &&& i + n.len() <= h.len()
    &&& h.subrange(i, i + n.len()) == n
}

/// The needle occurs somewhere in the haystack.
pub open spec fn contains_seq(h: Seq<char>, n: Seq<char>) -> bool {
    exists|i: int| match_at(h, n, i)
}

/// The haystack begins with the needle.
pub open spec fn starts_seq(h: Seq<char>, n: Seq<char>) -> bool {
    match_at(h, n, 0)
}

/// The first position at which the needle occurs, or -1 when it does
/// not.
pub open spec fn first_match(h: Seq<char>, n: Seq<char>) -> int
    decreases h.len(),
{
    if match_at(h, n, 0) {
        0
    } else if h.len() == 0 {
        -1
    } else {
        let r = first_match(h.drop_first(), n);
        if r < 0 {
            -1
        } else {
            r + 1
        }
    }
}

/// What `first_match` returns: -1 exactly when the needle is absent,
/// and otherwise the least position at which it occurs.
pub proof fn lemma_first_match(h: Seq<char>, n: Seq<char>)
    ensures
        first_match(h, n) == -1 <==> !contains_seq(h, n),
        first_match(h, n) >= 0 ==> match_at(h, n, first_match(h, n)) && (forall|j: int|
            0 <= j < first_match(h, n) ==> !match_at(h, n, j)),
    decreases h.len(),
{
    if match_at(h, n, 0) {
    } else if h.len() == 0 {
        assert forall|i: int| !match_at(h, n, i) by {
            if 0 <= i && i + n.len() <= h.len() {
                assert(i == 0 && n.len() == 0);
            }
        }
    } else {
        let t = h.drop_first();
        lemma_first_match(t, n);
        assert forall|j: int| 0 <= j implies match_at(h, n, j + 1) == match_at(t, n, j) by {
            if 0 <= j && j + n.len() <= t.len() {
                assert(t.subrange(j, j + n.len()) =~= h.subrange(j + 1, j + 1 + n.len()));
            }
        }
        let r = first_match(t, n);
        if r < 0 {
            assert forall|i: int| !match_at(h, n, i) by {
                if i == 0 {
                } else if i >= 1 {
                    assert(match_at(h, n, i) == match_at(t, n, i - 1));
                    assert(!match_at(t, n, i - 1));
                }
            }
        } else {
            assert(match_at(h, n, r + 1));
            assert forall|j: int| 0 <= j < r + 1 implies !match_at(h, n, j) by {
                if j >= 1 {
                    assert(match_at(h, n, j) == match_at(t, n, j - 1));
                }
            }
        }
    }
}

/// The characters of a string, in order.
pub fn chars_of(s: &str) -> (r: Vec<char>)
    ensures
        r@ == s@,
{
    let n = s.unicode_len();
    let mut out: Vec<char> = Vec::new();
    let mut i: usize = 0;
    while i < n
        invariant
            n == s@.len(),
            i <= n,
            out@ == s@.subrange(0, i as int),
        decreases n - i,
    {
        out.push(s.get_char(i));
        proof {
            assert(out@ =~= s@.subrange(0, i + 1));
        }
        i = i + 1;
    }
    proof {
        assert(out@ =~= s@);
    }
    out
}

/// ASCII-lowercase every character.
pub fn lower_vec(cs: &Vec<char>) -> (r: Vec<char>)
    ensures
        r@ == lower_seq(cs@),
{
    let mut out: Vec<char> = Vec::new();
    let mut i: usize = 0;
    while i < cs.len()
        invariant
            i <= cs@.len(),
            out@.len() == i,
            forall|j: int| 0 <= j < i ==> out@[j] == lower_char(cs@[j]),
        decreases cs@.len() - i,
    {
        let c = cs[i];
        let v = c as u32;
        if 65 <= v && v <= 90 {
            out.push(((v + 32) as u8) as char);
        } else {
            out.push(c);
        }
        i = i + 1;
    }
    proof {
        assert(out@ =~= lower_seq(cs@));
    }
    out
}

/// Whether the needle occurs at position `i` of the haystack.
fn match_at_exec(h: &Vec<char>, n: &Vec<char>, i: usize) -> (r: bool)
    requires
        i + n@.len() <= h@.len(),
    ensures
        r == match_at(h@, n@, i as int),
{
    let hlen: usize = h.len();
    let mut j: usize = 0;
    while j < n.len()
        invariant
            hlen == h@.len(),
            i + n@.len() <= h@.len(),
            j <= n@.len(),
            forall|k: int| 0 <= k < j ==> h@[i + k] == n@[k],
        decreases n@.len() - j,
    {
        if h[i + j] != n[j] {
            proof {
                assert(h@.subrange(i as int, i + n@.len())[j as int] == h@[i + j]);
            }
            return false;
        }
        j = j + 1;
    }
    proof {
        assert(h@.subrange(i as int, i + n@.len()) =~= n@);
    }
    true
}

/// The first position of the needle in the haystack, if any: exactly
/// `first_match`.
pub fn find_first(h: &Vec<char>, n: &Vec<char>) -> (r: Option<usize>)
    ensures
        match r {
            Some(i) => i as int == first_match(h@, n@),
            None => first_match(h@, n@) == -1,
        },
{
    proof {
        lemma_first_match(h@, n@);
    }
    if n.len() > h.len() {
        proof {
            if contains_seq(h@, n@) {
                let i = choose|i: int| match_at(h@, n@, i);
                assert(false);
            }
        }
        return None;
    }
    if n.len() == 0 {
        proof {
            assert(h@.subrange(0, 0) =~= n@);
            assert(match_at(h@, n@, 0));
            lemma_first_match(h@, n@);
        }
        return Some(0);
    }
    let hlen: usize = h.len();
    let last: usize = hlen - n.len();
    let mut i: usize = 0;
    while i <= last
        invariant
            hlen == h@.len(),
            1 <= n@.len() <= h@.len(),
            last == h@.len() - n@.len(),
            i <= last + 1,
            forall|j: int| 0 <= j < i ==> !match_at(h@, n@, j),
        decreases last + 1 - i,
    {
        if match_at_exec(h, n, i) {
            proof {
                lemma_first_match(h@, n@);
                assert(first_match(h@, n@) >= 0);
                assert(!(first_match(h@, n@) < i));
                assert(!(first_match(h@, n@) > i));
            }
            return Some(i);
        }
        i = i + 1;
    }
    proof {
        assert forall|j: int| !match_at(h@, n@, j) by {
            if 0 <= j && j + n@.len() <= h@.len() {
                assert(j <= last);
            }
        }
        if contains_seq(h@, n@) {
            let j = choose|j: int| match_at(h@, n@, j);
            assert(false);
        }
        lemma_first_match(h@, n@);
    }
    None
}

/// Whether the needle occurs anywhere in the haystack.
pub fn contains_exec(h: &Vec<char>, n: &Vec<char>) -> (r: bool)
    ensures
        r == contains_seq(h@, n@),
{
    proof {
        lemma_first_match(h@, n@);
    }
    match find_first(h, n) {
        Some(_) => true,
        None => false,
    }
}

/// Whether the haystack begins with the needle.
pub fn starts_with_exec(h: &Vec<char>, n: &Vec<char>) -> (r: bool)
    ensures
        r == starts_seq(h@, n@),
{
    if n.len() > h.len() {
        return false;
    }
    match_at_exec(h, n, 0)
}

/// Identifiers that never make the list: raw hardware nodes, mix and
/// snoop virtual nodes, multi-channel surround nodes, digital
/// passthrough, null devices, and the literal default (it has its own
/// synthetic entry).
pub open spec fn excluded_id(id: Seq<char>) -> bool {
    ||| starts_seq(lower_seq(id), "hw:"@)
    ||| contains_seq(lower_seq(id), "dmix"@)
    ||| contains_seq(lower_seq(id), "dsnoop"@)
    ||| contains_seq(lower_seq(id), "surround"@)
    ||| contains_seq(lower_seq(id), "front"@)
    ||| contains_seq(lower_seq(id), "rear"@)
    ||| contains_seq(lower_seq(id), "center"@)
    ||| contains_seq(lower_seq(id), "side"@)
    ||| contains_seq(lower_seq(id), "iec958"@)
    ||| contains_seq(lower_seq(id), "hdmi"@)
    ||| contains_seq(lower_seq(id), "null"@)
    ||| id == "default"@
}

/// Identifiers of abstraction-layer nodes that negotiate formats on
/// behalf of the caller; only these are worth offering.
pub open spec fn reliable_id(id: Seq<char>) -> bool {
    ||| contains_seq(lower_seq(id), "sysdefault"@)
    ||| contains_seq(lower_seq(id), "plughw"@)
}

/// Whether a device identifier makes the list.
pub open spec fn accepted_id(id: Seq<char>) -> bool {
    !excluded_id(id) && reliable_id(id)
}

/// Everything after the first `CARD=` marker of an identifier.
pub open spec fn card_tail(id: Seq<char>) -> Seq<char> {
    id.skip(first_match(id, "CARD="@) + "CARD="@.len())
}

/// The card identifier embedded in a device id: the text after the
/// first `CARD=`, cut at the first comma.
pub open spec fn card_raw(id: Seq<char>) -> Seq<char> {
    let t = card_tail(id);
    if contains_seq(t, ","@) {
        t.subrange(0, first_match(t, ","@))
    } else {
        t
    }
}

/// The display name derived from a device id: the embedded card name
/// when there is one, suffixed with its abstraction class; otherwise
/// the id itself.
pub open spec fn display_name_of(id: Seq<char>) -> Seq<char> {
    if contains_seq(id, "CARD="@) {
        if contains_seq(lower_seq(id), "sysdefault"@) {
            card_raw(id) + " (System Default)"@
        } else {
            card_raw(id) + " (Direct/Plug)"@
        }
    } else {
        id
    }
}

/// Case-sensitive lexicographic order on character sequences, by
/// scalar value, with a prefix before its extensions.
pub open spec fn lex_le(a: Seq<char>, b: Seq<char>) -> bool
    decreases a.len(),
{
    if a.len() == 0 {
        true
    } else if b.len() == 0 {
        false
    } else if (a[0] as u32) < (b[0] as u32) {
        true
    } else if (a[0] as u32) > (b[0] as u32) {
        false
    } else {
        lex_le(a.drop_first(), b.drop_first())
    }
}

/// `lex_le` is total: any two sequences compare one way or the other.
pub proof fn lemma_lex_le_total(a: Seq<char>, b: Seq<char>)
    ensures
        lex_le(a, b) || lex_le(b, a),
    decreases a.len(),
{
    if a.len() == 0 {
    } else if b.len() == 0 {
    } else if a[0] as u32 == b[0] as u32 {
        lemma_lex_le_total(a.drop_first(), b.drop_first());
    }
}

/// `lex_le` is transitive.
pub proof fn lemma_lex_le_trans(a: Seq<char>, b: Seq<char>, c: Seq<char>)
    requires
        lex_le(a, b),
        lex_le(b, c),
    ensures
        lex_le(a, c),
    decreases a.len(),
{
    if a.len() == 0 {
    } else {
        assert(b.len() > 0);
        assert(c.len() > 0);
        if a[0] as u32 == b[0] as u32 && b[0] as u32 == c[0] as u32 {
            lemma_lex_le_trans(a.drop_first(), b.drop_first(), c.drop_first());
        }
    }
}

/// Compare the suffixes of two character vectors from position `i` on.
fn lex_le_from(a: &Vec<char>, b: &Vec<char>, i: usize) -> (r: bool)
    requires
        i <= a@.len(),
        i <= b@.len(),
    ensures
        r == lex_le(a@.skip(i as int), b@.skip(i as int)),
    decreases a@.len() - i,
{
    if i == a.len() {
        return true;
    }
    if i == b.len() {
        return false;
    }
    let ca = a[i] as u32;
    let cb = b[i] as u32;
    proof {
        assert(a@.skip(i as int)[0] == a@[i as int]);
        assert(b@.skip(i as int)[0] == b@[i as int]);
        assert(a@.skip(i as int).drop_first() =~= a@.skip(i + 1));
        assert(b@.skip(i as int).drop_first() =~= b@.skip(i + 1));
    }
    if ca < cb {
        true
    } else if ca > cb {
        false
    } else {
        lex_le_from(a, b, i + 1)
    }
}

/// Whether the first display name sorts at or before the second,
/// case-insensitively.
pub fn le_display(a: &str, b: &str) -> (r: bool)
    ensures
        r == lex_le(lower_seq(a@), lower_seq(b@)),
{
    let ca = lower_vec(&chars_of(a));
    let cb = lower_vec(&chars_of(b));
    proof {
        assert(ca@.skip(0) =~= ca@);
        assert(cb@.skip(0) =~= cb@);
    }
    lex_le_from(&ca, &cb, 0)
}

/// Whether a raw device identifier makes the list.
pub fn accepted_device_id(id: &str) -> (r: bool)
    ensures
        r == accepted_id(id@),
{
    let cs = chars_of(id);
    let low = lower_vec(&cs);
    if starts_with_exec(&low, &chars_of("hw:")) {
        return false;
    }
    if contains_exec(&low, &chars_of("dmix")) {
        return false;
    }
    if contains_exec(&low, &chars_of("dsnoop")) {
        return false;
    }
    if contains_exec(&low, &chars_of("surround")) {
        return false;
    }
    if contains_exec(&low, &chars_of("front")) {
        return false;
    }
    if contains_exec(&low, &chars_of("rear")) {
        return false;
    }
    if contains_exec(&low, &chars_of("center")) {
        return false;
    }
    if contains_exec(&low, &chars_of("side")) {
        return false;
    }
    if contains_exec(&low, &chars_of("iec958")) {
        return false;
    }
    if contains_exec(&low, &chars_of("hdmi")) {
        return false;
    }
    if contains_exec(&low, &chars_of("null")) {
        return false;
    }
    if eq_chars(&cs, &chars_of("default")) {
        return false;
    }
    if contains_exec(&low, &chars_of("sysdefault")) {
        return true;
    }
    contains_exec(&low, &chars_of("plughw"))
}

/// The display name for a raw device identifier, exactly
/// `display_name_of`.
pub fn display_name_for(id: &str) -> (r: String)
    ensures
        r@ == display_name_of(id@),
{
    let cs = chars_of(id);
    let marker = chars_of("CARD=");
    let pos = find_first(&cs, &marker);
    proof {
        lemma_first_match(cs@, marker@);
    }
    match pos {
        None => String::from_str(id),
        Some(i) => {
            let full: usize = cs.len();
            proof {
                assert(match_at(cs@, marker@, i as int));
                assert(i + marker@.len() <= full);
            }
            let start: usize = i + marker.len();
            let mut tail: Vec<char> = Vec::new();
            let mut k: usize = start;
            let cs_len: usize = cs.len();
            while k < cs_len
                invariant
                    cs_len == cs@.len(),
                    start <= k <= cs_len,
                    tail@ == cs@.subrange(start as int, k as int),
                decreases cs_len - k,
            {
                tail.push(cs[k]);
                proof {
                    assert(tail@ =~= cs@.subrange(start as int, k + 1));
                }
                k = k + 1;
            }
            proof {
                assert(tail@ =~= cs@.skip(start as int));
                assert(card_tail(id@) == tail@);
            }
            let comma = chars_of(",");
            let cut: usize = match find_first(&tail, &comma) {
                Some(j) => j,
                None => tail.len(),
            };
            proof {
                lemma_first_match(tail@, comma@);
                if contains_seq(tail@, ","@) {
                    assert(match_at(tail@, ","@, first_match(tail@, ","@)));
                } else {
                    assert(tail@.subrange(0, tail@.len() as int) =~= tail@);
                }
                assert(card_raw(id@) == tail@.subrange(0, cut as int));
                assert(tail@.subrange(0, cut as int) =~= cs@.subrange(
                    start as int,
                    start + cut,
                ));
            }
            let name = id.substring_char(start, start + cut);
            let low = lower_vec(&cs);
            let base = String::from_str(name);
            if contains_exec(&low, &chars_of("sysdefault")) {
                base.concat(" (System Default)")
            } else {
                base.concat(" (Direct/Plug)")
            }
        },
    }
}

/// One offered input device: its raw identifier and the label shown to
/// the user.
#[derive(Debug)]
pub struct AudioDeviceInfo {
    /// Raw platform identifier, handed back to open the device.
    pub id: String,
    /// Human-friendly label; unique within one device list.
    pub display_name: String,
}

impl Clone for AudioDeviceInfo {
    /// An exact copy of the entry.
    fn clone(&self) -> (r: Self)
        ensures
            r == *self,
    {
        AudioDeviceInfo { id: self.id.clone(), display_name: self.display_name.clone() }
    }
}

/// The entry is derived from one of the first `bound` raw identifiers:
/// the first accepted id that carries the entry's label.
pub open spec fn entry_from(e: AudioDeviceInfo, ids: Seq<String>, bound: int) -> bool {
    exists|j: int|
        {
            &&& 0 <= j < bound
            &&& #[trigger] accepted_id(ids[j]@)
            &&& e.id@ == ids[j]@
            &&& e.display_name@ == display_name_of(ids[j]@)
            &&& forall|j2: int|
                0 <= j2 < j && #[trigger] accepted_id(ids[j2]@) ==> display_name_of(ids[j2]@)
                    != e.display_name@
        }
}

/// Whether some entry already carries this display name.
fn contains_display(rest: &Vec<AudioDeviceInfo>, disp: &String) -> (r: bool)
    ensures
        r == exists|k: int|
            0 <= k < rest@.len() && (#[trigger] rest@[k]).display_name@ == disp@,
{
    let mut k: usize = 0;
    while k < rest.len()
        invariant
            k <= rest@.len(),
            forall|j: int| 0 <= j < k ==> (#[trigger] rest@[j]).display_name@ != disp@,
        decreases rest@.len() - k,
    {
        if rest[k].display_name == *disp {
            return true;
        }
        k = k + 1;
    }
    false
}

/// Build the offered device list from the host's raw input identifiers.
///
/// The first entry is always the synthetic default. The rest are the
/// accepted identifiers, labeled by `display_name_of`, with duplicate
/// labels removed (first occurrence wins) and ordered
/// case-insensitively by label. Every accepted identifier is
/// represented by its label somewhere in the list.
#[verifier::spinoff_prover]
#[verifier::rlimit(100)]
pub fn get_professional_device_list(ids: &Vec<String>) -> (r: Vec<AudioDeviceInfo>)
    ensures
        r@.len() >= 1,
        r@[0].id@ == "default"@,
        r@[0].display_name@ == "Sistem Varsayılanı (Pulse/Pipewire)"@,
        forall|k: int| 1 <= k < r@.len() ==> entry_from(#[trigger] r@[k], ids@, ids@.len() as int),
        forall|k1: int, k2: int|
            0 <= k1 < k2 < r@.len() ==> (#[trigger] r@[k1]).display_name@ != (
            #[trigger] r@[k2]).display_name@,
        forall|k1: int, k2: int|
            1 <= k1 <= k2 < r@.len() ==> lex_le(
                lower_seq((#[trigger] r@[k1]).display_name@),
                lower_seq((#[trigger] r@[k2]).display_name@),
            ),
        forall|j: int|
            0 <= j < ids@.len() && #[trigger] accepted_id(ids@[j]@) ==> exists|k: int|
                0 <= k < r@.len() && (#[trigger] r@[k]).display_name@ == display_name_of(ids@[j]@),
{
    let label = String::from_str("Sistem Varsayılanı (Pulse/Pipewire)");
    let mut rest: Vec<AudioDeviceInfo> = Vec::new();
    let mut idx: usize = 0;
    while idx < ids.len()
        invariant
            idx <= ids@.len(),
            label@ == "Sistem Varsayılanı (Pulse/Pipewire)"@,
            forall|k: int|
                0 <= k < rest@.len() ==> entry_from(#[trigger] rest@[k], ids@, idx as int),
            forall|k: int|
                0 <= k < rest@.len() ==> (#[trigger] rest@[k]).display_name@ != label@,
            forall|k1: int, k2: int|
                0 <= k1 < k2 < rest@.len() ==> (#[trigger] rest@[k1]).display_name@ != (
                #[trigger] rest@[k2]).display_name@,
            forall|k1: int, k2: int|
                0 <= k1 <= k2 < rest@.len() ==> lex_le(
                    lower_seq((#[trigger] rest@[k1]).display_name@),
                    lower_seq((#[trigger] rest@[k2]).display_name@),
                ),
            forall|j: int|
                0 <= j < idx && #[trigger] accepted_id(ids@[j]@) ==> label@ == display_name_of(
                    ids@[j]@,
                ) || exists|k: int|
                    0 <= k < rest@.len() && (#[trigger] rest@[k]).display_name@
                        == display_name_of(ids@[j]@),
        decreases ids@.len() - idx,
    {
        let id_ref: &String = &ids[idx];
        if accepted_device_id(id_ref.as_str()) {
            let disp = display_name_for(id_ref.as_str());
            let dup: bool = if disp == label {
                true
            } else {
                contains_display(&rest, &disp)
            };
            if !dup {
                let mut p: usize = 0;
                while p < rest.len() && le_display(rest[p].display_name.as_str(), disp.as_str())
                    invariant
                        p <= rest@.len(),
                        forall|k: int|
                            0 <= k < p ==> lex_le(
                                lower_seq((#[trigger] rest@[k]).display_name@),
                                lower_seq(disp@),
                            ),
                    decreases rest@.len() - p,
                {
                    p = p + 1;
                }
                proof {
                    assert forall|k: int| p <= k < rest@.len() implies lex_le(
                        lower_seq(disp@),
                        lower_seq((#[trigger] rest@[k]).display_name@),
                    ) by {
                        lemma_lex_le_total(
                            lower_seq(rest@[p as int].display_name@),
                            lower_seq(disp@),
                        );
                        if k > p {
                            lemma_lex_le_trans(
                                lower_seq(disp@),
                                lower_seq(rest@[p as int].display_name@),
                                lower_seq(rest@[k].display_name@),
                            );
                        }
                    }
                }
                let info = AudioDeviceInfo { id: id_ref.clone(), display_name: disp };
                let ghost pre = rest@;
                let ghost new_entry = info;
                rest.insert(p, info);
                proof {
                    pre.insert_ensures(p as int, new_entry);
                    lemma_lex_le_total(lower_seq(new_entry.display_name@), lower_seq(new_entry.display_name@));
                    assert forall|k: int| 0 <= k < rest@.len() implies entry_from(
                        #[trigger] rest@[k],
                        ids@,
                        idx + 1,
                    ) by {
                        assert(rest@[k] == pre.insert(p as int, new_entry)[k]);
                        if k < p {
                            assert(entry_from(pre[k], ids@, idx as int));
                        } else if k == p {
                            assert(accepted_id(ids@[idx as int]@));
                            assert(new_entry.id@ == ids@[idx as int]@);
                            assert(new_entry.display_name@ == display_name_of(ids@[idx as int]@));
                            assert forall|j2: int|
                                0 <= j2 < idx && #[trigger] accepted_id(ids@[j2]@) implies
                                display_name_of(ids@[j2]@) != new_entry.display_name@ by {
                            }
                        } else {
                            assert(rest@[k] == pre[k - 1]);
                            assert(entry_from(pre[k - 1], ids@, idx as int));
                        }
                    }
                    assert forall|k: int| 0 <= k < rest@.len() implies (
                    #[trigger] rest@[k]).display_name@ != label@ by {
                        assert(rest@[k] == pre.insert(p as int, new_entry)[k]);
                        if k > p {
                            assert(rest@[k] == pre[k - 1]);
                        }
                    }
                    assert forall|k1: int, k2: int|
                        0 <= k1 < k2 < rest@.len() implies (#[trigger] rest@[k1]).display_name@
                        != (#[trigger] rest@[k2]).display_name@ by {
                        assert(rest@[k1] == pre.insert(p as int, new_entry)[k1]);
                        assert(rest@[k2] == pre.insert(p as int, new_entry)[k2]);
                        if k1 > p {
                            assert(rest@[k1] == pre[k1 - 1]);
                        }
                        if k2 > p {
                            assert(rest@[k2] == pre[k2 - 1]);
                        }
                    }
                    assert forall|k1: int, k2: int| 0 <= k1 <= k2 < rest@.len() implies lex_le(
                        lower_seq((#[trigger] rest@[k1]).display_name@),
                        lower_seq((#[trigger] rest@[k2]).display_name@),
                    ) by {
                        assert(rest@[k1] == pre.insert(p as int, new_entry)[k1]);
                        assert(rest@[k2] == pre.insert(p as int, new_entry)[k2]);
                        if k1 > p {
                            assert(rest@[k1] == pre[k1 - 1]);
                        }
                        if k2 > p {
                            assert(rest@[k2] == pre[k2 - 1]);
                        }
                    }
                    assert forall|j: int|
                        0 <= j < idx + 1 && #[trigger] accepted_id(ids@[j]@) implies label@
                        == display_name_of(ids@[j]@) || exists|k: int|
                        0 <= k < rest@.len() && (#[trigger] rest@[k]).display_name@
                            == display_name_of(ids@[j]@) by {
                        if j == idx as int {
                            assert(rest@[p as int] == pre.insert(p as int, new_entry)[p as int]);
                            assert(rest@[p as int].display_name@ == display_name_of(ids@[j]@));
                        } else if label@ != display_name_of(ids@[j]@) {
                            let k = choose|k: int|
                                0 <= k < pre.len() && (#[trigger] pre[k]).display_name@
                                    == display_name_of(ids@[j]@);
                            if k < p {
                                assert(rest@[k] == pre.insert(p as int, new_entry)[k]);
                                assert(rest@[k].display_name@ == display_name_of(ids@[j]@));
                            } else {
                                assert(rest@[k + 1] == pre.insert(p as int, new_entry)[k + 1]);
                                assert(rest@[k + 1] == pre[k]);
                                assert(rest@[k + 1].display_name@ == display_name_of(ids@[j]@));
                            }
                        }
                    }
                }
            } else {
                proof {
                    assert forall|j: int|
                        0 <= j < idx + 1 && #[trigger] accepted_id(ids@[j]@) implies label@
                        == display_name_of(ids@[j]@) || exists|k: int|
                        0 <= k < rest@.len() && (#[trigger] rest@[k]).display_name@
                            == display_name_of(ids@[j]@) by {
                    }
                }
            }
        }
        idx = idx + 1;
    }

    let mut out: Vec<AudioDeviceInfo> = Vec::new();
    out.push(AudioDeviceInfo { id: String::from_str("default"), display_name: label });
    let mut t: usize = 0;
    while t < rest.len()
        invariant
            t <= rest@.len(),
            out@.len() == t + 1,
            out@[0].id@ == "default"@,
            out@[0].display_name@ == "Sistem Varsayılanı (Pulse/Pipewire)"@,
            forall|k: int| 1 <= k < out@.len() ==> #[trigger] out@[k] == rest@[k - 1],
        decreases rest@.len() - t,
    {
        out.push(rest[t].clone());
        t = t + 1;
    }
    proof {
        assert forall|k: int| 1 <= k < out@.len() implies entry_from(
            #[trigger] out@[k],
            ids@,
            ids@.len() as int,
        ) by {
            assert(out@[k] == rest@[k - 1]);
            assert(entry_from(rest@[k - 1], ids@, idx as int));
        }
        assert forall|j: int|
            0 <= j < ids@.len() && #[trigger] accepted_id(ids@[j]@) implies exists|k: int|
            0 <= k < out@.len() && (#[trigger] out@[k]).display_name@ == display_name_of(
                ids@[j]@,
            ) by {
            if label@ == display_name_of(ids@[j]@) {
                assert(out@[0].display_name@ == display_name_of(ids@[j]@));
            } else {
                let k = choose|k: int|
                    0 <= k < rest@.len() && (#[trigger] rest@[k]).display_name@
                        == display_name_of(ids@[j]@);
                assert(out@[k + 1] == rest@[k]);
                assert(out@[k + 1].display_name@ == display_name_of(ids@[j]@));
            }
        }
    }
    out
}

/// Resolve a requested identifier against the host's device names:
/// first by exact match, then — when the request embeds a card name —
/// by the first name that contains that card name. Anything else fails
/// with `DeviceNotFound`.
pub fn resolve_device(names: &Vec<String>, requested: &str) -> (r: Result<usize, CoreError>)
    ensures
        (exists|j: int| 0 <= j < names@.len() && (#[trigger] names@[j])@ == requested@) ==> {
            &&& r is Ok
            &&& 0 <= r->Ok_0 < names@.len()
            &&& names@[r->Ok_0 as int]@ == requested@
            &&& forall|j: int| 0 <= j < r->Ok_0 ==> (#[trigger] names@[j])@ != requested@
        },
        (!(exists|j: int| 0 <= j < names@.len() && (#[trigger] names@[j])@ == requested@)
            && contains_seq(requested@, "CARD="@) && (exists|j: int|
            0 <= j < names@.len() && contains_seq((#[trigger] names@[j])@, card_raw(requested@))))
            ==> {
            &&& r is Ok
            &&& 0 <= r->Ok_0 < names@.len()
            &&& contains_seq(names@[r->Ok_0 as int]@, card_raw(requested@))
            &&& forall|j: int|
                0 <= j < r->Ok_0 ==> !contains_seq((#[trigger] names@[j])@, card_raw(requested@))
        },
        (!(exists|j: int| 0 <= j < names@.len() && (#[trigger] names@[j])@ == requested@) && !(
        contains_seq(requested@, "CARD="@) && (exists|j: int|
            0 <= j < names@.len() && contains_seq((#[trigger] names@[j])@, card_raw(requested@)))))
            ==> r == Result::<usize, CoreError>::Err(CoreError::DeviceNotFound),
{
    let req = chars_of(requested);
    let mut j: usize = 0;
    while j < names.len()
        invariant
            req@ == requested@,
            j <= names@.len(),
            forall|i: int| 0 <= i < j ==> (#[trigger] names@[i])@ != requested@,
        decreases names@.len() - j,
    {
        let cand = chars_of(names[j].as_str());
        if eq_chars(&cand, &req) {
            return Ok(j);
        }
        j = j + 1;
    }
    let marker = chars_of("CARD=");
    proof {
        lemma_first_match(req@, marker@);
    }
    if contains_exec(&req, &marker) {
        let pos = find_first(&req, &marker);
        let i = match pos {
            Some(i) => i,
            None => 0,
        };
        proof {
            assert(match_at(req@, marker@, i as int));
        }
        let full: usize = req.len();
        let start: usize = i + marker.len();
        let mut tail: Vec<char> = Vec::new();
        let mut k: usize = start;
        while k < full
            invariant
                full == req@.len(),
                start <= k <= full,
                tail@ == req@.subrange(start as int, k as int),
            decreases full - k,
        {
            tail.push(req[k]);
            proof {
                assert(tail@ =~= req@.subrange(start as int, k + 1));
            }
            k = k + 1;
        }
        proof {
            assert(tail@ =~= req@.skip(start as int));
            assert(card_tail(requested@) == tail@);
        }
        let comma = chars_of(",");
        let cut: usize = match find_first(&tail, &comma) {
            Some(c) => c,
            None => tail.len(),
        };
        proof {
            lemma_first_match(tail@, comma@);
            if contains_seq(tail@, ","@) {
                assert(match_at(tail@, ","@, first_match(tail@, ","@)));
            }
        }
        let mut card: Vec<char> = Vec::new();
        let mut c2: usize = 0;
        while c2 < cut
            invariant
                cut <= tail@.len(),
                c2 <= cut,
                card@ == tail@.subrange(0, c2 as int),
            decreases cut - c2,
        {
            card.push(tail[c2]);
            proof {
                assert(card@ =~= tail@.subrange(0, c2 + 1));
            }
            c2 = c2 + 1;
        }
        proof {
            assert(card@ =~= tail@.subrange(0, cut as int));
            assert(card@ == card_raw(requested@));
        }
        let mut m: usize = 0;
        while m < names.len()
            invariant
                card@ == card_raw(requested@),
                contains_seq(requested@, "CARD="@),
                m <= names@.len(),
                forall|i2: int|
                    0 <= i2 < m ==> !contains_seq((#[trigger] names@[i2])@, card_raw(requested@)),
                forall|i2: int| 0 <= i2 < names@.len() ==> (#[trigger] names@[i2])@ != requested@,
            decreases names@.len() - m,
        {
            let cand = chars_of(names[m].as_str());
            if contains_exec(&cand, &card) {
                return Ok(m);
            }
            m = m + 1;
        }
        return Err(CoreError::DeviceNotFound);
    }
    Err(CoreError::DeviceNotFound)
}

/// Whether two character vectors hold the same characters.
fn eq_chars(a: &Vec<char>, b: &Vec<char>) -> (r: bool)
    ensures
        r == (a@ == b@),
{
    if a.len() != b.len() {
        return false;
    }
    let mut i: usize = 0;
    while i < a.len()
        invariant
            a@.len() == b@.len(),
            i <= a@.len(),
            forall|j: int| 0 <= j < i ==> a@[j] == b@[j],
        decreases a@.len() - i,
    {
        if a[i] != b[i] {
            return false;
        }
        i = i + 1;
    }
    proof {
        assert(a@ =~= b@);
    }
    true
}

} // verus!
