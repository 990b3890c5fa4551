//! The AMax firmware register map: classification of the registers listed
//! in a firmware's `RegisterFile.json`, selection of the canonical
//! per-channel register set, derivation of the page layout, and the guard
//! that refuses a firmware whose broadcast and per-channel pages disagree.
//!
//! Register names come in several firmware eras:
//!   - `page_amax_energy_0/THRS`          slash form, channel index
//!   - `page_amax_energy_THRS`            bare broadcast page
//!   - `page_amax_energy_15_THRS`         underscore form, channel index
//!   - `page_amax_energy/THRS` (broadcast) and `page_amax_energy_4_<N>/THRS`
//!   - `page_amax_energy_1_<N>_THRS`      group index, then channel
//! Any other name is a board-level register.

pub mod resolve;
pub mod emit;
pub mod names;

use vstd::prelude::*;
use vstd::string::*;
use crate::text::{decimal, digit_char, hex_upper, u64_to_hex_upper};
use crate::chars::{
    all_digits, all_digits_in, chars_of, contains, contains_sub, find_char, find_from, first_at,
    has_prefix, parse_u32_in, parse_u32_spec, rfind_between, rfind_char, starts_with, string_of, sub_chars,
    ParseFail, str_is, is_digit, scan_digits,
};

verus! {

/// One register of a firmware's register file.
#[derive(Debug, Clone)]
pub struct Register {
    /// Word address
    pub address: u32,
    /// Full path (preferred over `name` when both are present)
    pub path: Option<String>,
    /// Register name
    pub name: Option<String>,
}

/// The page prefix of the broadcast slash form.
pub open spec fn prefix_slash() -> Seq<char> {
    seq!['p', 'a', 'g', 'e', '_', 'a', 'm', 'a', 'x', '_', 'e', 'n', 'e', 'r', 'g', 'y', '/']
}

/// The page prefix of every other per-channel form.
pub open spec fn prefix_underscore() -> Seq<char> {
    seq!['p', 'a', 'g', 'e', '_', 'a', 'm', 'a', 'x', '_', 'e', 'n', 'e', 'r', 'g', 'y', '_']
}

fn prefix_slash_chars() -> (r: Vec<char>)
    ensures
        r@ == prefix_slash(),
{
    proof {
        reveal_strlit("page_amax_energy/");
    }
    chars_of("page_amax_energy/")
}

fn prefix_underscore_chars() -> (r: Vec<char>)
    ensures
        r@ == prefix_underscore(),
{
    proof {
        reveal_strlit("page_amax_energy_");
    }
    chars_of("page_amax_energy_")
}

/// The name a register is known by: its path, else its name.
pub open spec fn raw_name(r: Register) -> Option<Seq<char>> {
    match r.path {
        Some(p) => Some(p@),
        None => match r.name {
            Some(n) => Some(n@),
            None => None,
        },
    }
}

/// A decimal token as `str::parse::<u32>().ok()` reads it.
pub open spec fn parse_ok(s: Seq<char>) -> Option<u32> {
    match parse_u32_spec(s, 10) {
        Ok(v) => Some(v as u32),
        Err(_) => None,
    }
}

/// Consume the leading `<digits>_` tokens of an underscore-form page body:
/// the channel is the last such token (as parsed), the rest the register
/// name. `ch` is the channel read so far.
pub open spec fn split_body(rest: Seq<char>, ch: Option<u32>) -> (Option<u32>, Seq<char>)
    decreases rest.len(),
{
    if exists|i: int| first_at(rest, '_', i) {
        let us = choose|i: int| first_at(rest, '_', i);
        let head = rest.take(us);
        if head.len() == 0 || !all_digits(head) {
            (ch, rest)
        } else {
            split_body(rest.skip(us + 1), parse_ok(head))
        }
    } else {
        (ch, rest)
    }
}

/// The key a register is matched by against the parameter metadata: the
/// name with the page prefix and any group/channel index removed.
pub open spec fn spec_fw_key(r: Register) -> Option<Seq<char>> {
    match raw_name(r) {
        None => None,
        Some(raw) => if has_prefix(raw, prefix_slash()) {
            Some(raw.skip(17))
        } else if !has_prefix(raw, prefix_underscore()) {
            Some(raw)
        } else {
            let rest = raw.skip(17);
            match find_char(rest, '/') {
                Some(sl) => Some(rest.skip(sl + 1)),
                None => Some(split_body(rest, None).1),
            }
        },
    }
}

/// The register belongs to the per-channel page family (broadcast slash
/// form included).
pub open spec fn spec_is_per_channel(r: Register) -> bool {
    let raw = match raw_name(r) {
        Some(x) => x,
        None => Seq::<char>::empty(),
    };
    has_prefix(raw, prefix_underscore()) || has_prefix(raw, prefix_slash())
}

/// The channel index of a per-channel page register; `None` for the
/// broadcast page and for any other register.
pub open spec fn spec_channel_index(r: Register) -> Option<u32> {
    match raw_name(r) {
        None => None,
        Some(raw) => if has_prefix(raw, prefix_slash()) || !has_prefix(raw, prefix_underscore()) {
            None
        } else {
            let rest = raw.skip(17);
            match find_char(rest, '/') {
                Some(sl) => {
                    let pre = rest.take(sl);
                    let seg = match rfind_char(pre, '_') {
                        Some(u) => pre.skip(u + 1),
                        None => pre,
                    };
                    parse_ok(seg)
                },
                None => split_body(rest, None).0,
            }
        },
    }
}

/// `s` without its leading `/` characters.
pub open spec fn trim_slashes(s: Seq<char>) -> Seq<char>
    decreases s.len(),
{
    if s.len() > 0 && s[0] == '/' {
        trim_slashes(s.skip(1))
    } else {
        s
    }
}

/// The register is a board-level register named by one of `keys`.
pub open spec fn spec_is_board_level(r: Register, keys: Seq<Seq<char>>) -> bool {
    let raw = match raw_name(r) {
        Some(x) => x,
        None => Seq::<char>::empty(),
    };
    let t = trim_slashes(raw);
    &&& !spec_is_per_channel(r)
    &&& exists|i: int| 0 <= i < keys.len() && (t == keys[i] || contains_sub(t, #[trigger] keys[i]))
}

/// Split an underscore-form body held in `cs[from..]`: the channel and the
/// position where the register name starts.
fn split_body_at(cs: &Vec<char>, from: usize) -> (r: (Option<u32>, usize))
    requires
        from <= cs@.len(),
    ensures
        from <= r.1 <= cs@.len(),
        (r.0, cs@.skip(r.1 as int)) == split_body(cs@.skip(from as int), None),
{
    let mut pos: usize = from;
    let mut ch: Option<u32> = None;
    while pos < cs.len()
        invariant
            from <= pos <= cs@.len(),
            split_body(cs@.skip(pos as int), ch) == split_body(cs@.skip(from as int), None),
        decreases cs.len() - pos,
    {
        let ghost rest = cs@.skip(pos as int);
        match find_from(cs, pos, '_') {
            None => {
                return (ch, pos);
            },
            Some(us) => {
                proof {
                    let k = choose|i: int| first_at(rest, '_', i);
                    assert(first_at(rest, '_', k));
                    assert(k == us - pos);
                    assert(rest.take(us - pos) == cs@.subrange(pos as int, us as int));
                    assert(rest.skip(us - pos + 1) == cs@.skip(us + 1));
                }
                if us == pos || !all_digits_in(cs, pos, us) {
                    return (ch, pos);
                }
                let parsed = match parse_u32_in(cs, pos, us, 10) {
                    Ok(v) => Some(v),
                    Err(_) => None,
                };
                ch = parsed;
                pos = us + 1;
            },
        }
    }
    proof {
        assert(!exists|i: int| first_at(cs@.skip(pos as int), '_', i));
    }
    (ch, pos)
}

/// Consume leading `<digits>_` tokens from an underscore-form page body and
/// return `(channel, register_name)`. The channel is the last leading
/// numeric token: `POLARITY` gives `(None, "POLARITY")`, `15_THRS` gives
/// `(Some(15), "THRS")`, `1_0_POLARITY` gives `(Some(0), "POLARITY")`.
pub fn split_underscore_body(body: &str) -> (r: (Option<u32>, &str))
    ensures
        (r.0, r.1@) == split_body(body@, None),
{
    let cs = chars_of(body);
    let (ch, pos) = split_body_at(&cs, 0);
    assert(cs@.skip(0) == cs@);
    let name = body.substring_char(pos, body.unicode_len());
    (ch, name)
}

impl Register {
    /// The characters of the register's path, else of its name.
    fn raw_chars(&self) -> (r: Option<Vec<char>>)
        ensures
            match raw_name(*self) {
                Some(x) => r matches Some(v) && v@ == x,
                None => r is None,
            },
    {
        match &self.path {
            Some(p) => Some(chars_of(p.as_str())),
            None => match &self.name {
                Some(n) => Some(chars_of(n.as_str())),
                None => None,
            },
        }
    }

    /// Identifier used for matching against the parameter metadata: the page
    /// prefix and any channel/group index are stripped, so every era's
    /// per-channel name lands on the same key (e.g. `THRS`). A board-level
    /// register keeps its name as it is.
    pub fn fw_key(&self) -> (r: Option<String>)
        ensures
            match spec_fw_key(*self) {
                Some(k) => r matches Some(s) && s@ == k,
                None => r is None,
            },
    {
        let cs = match self.raw_chars() {
            Some(v) => v,
            None => {
                return None;
            },
        };
        let n = cs.len();
        let ps = prefix_slash_chars();
        let pu = prefix_underscore_chars();
        if starts_with(&cs, &ps) {
            return Some(string_of(&cs, 17, n));
        }
        if !starts_with(&cs, &pu) {
            assert(cs@.subrange(0, n as int) == cs@);
            return Some(string_of(&cs, 0, n));
        }
        proof {
            assert(cs@.skip(17) == cs@.subrange(17, n as int));
        }
        match find_from(&cs, 17, '/') {
            Some(sl) => {
                assert(cs@.skip(17).skip(sl - 17 + 1) == cs@.subrange(sl + 1, n as int));
                Some(string_of(&cs, sl + 1, n))
            },
            None => {
                let (_, pos) = split_body_at(&cs, 17);
                assert(cs@.skip(pos as int) == cs@.subrange(pos as int, n as int));
                Some(string_of(&cs, pos, n))
            },
        }
    }

    /// True iff this register belongs to the per-channel
    /// `page_amax_energy_*` family, the broadcast slash form
    /// `page_amax_energy/<NAME>` included.
    pub fn is_per_channel(&self) -> (r: bool)
        ensures
            r == spec_is_per_channel(*self),
    {
        let cs = match self.raw_chars() {
            Some(v) => v,
            None => Vec::new(),
        };
        let ps = prefix_slash_chars();
        let pu = prefix_underscore_chars();
        starts_with(&cs, &pu) || starts_with(&cs, &ps)
    }

    /// The channel index of a per-channel page (underscore or slash form);
    /// `None` for the broadcast page and for any other register.
    pub fn channel_index(&self) -> (r: Option<u32>)
        ensures
            r == spec_channel_index(*self),
    {
        let cs = match self.raw_chars() {
            Some(v) => v,
            None => {
                return None;
            },
        };
        let ps = prefix_slash_chars();
        let pu = prefix_underscore_chars();
        if starts_with(&cs, &ps) || !starts_with(&cs, &pu) {
            return None;
        }
        let ghost rest = cs@.skip(17);
        match find_from(&cs, 17, '/') {
            Some(sl) => {
                let ghost pre = rest.take(sl - 17);
                assert(pre == cs@.subrange(17, sl as int));
                let start: usize = match rfind_between(&cs, 17, sl, '_') {
                    Some(u) => {
                        assert(pre.skip(u - 17 + 1) == cs@.subrange(u + 1, sl as int));
                        u + 1
                    },
                    None => 17,
                };
                match parse_u32_in(&cs, start, sl, 10) {
                    Ok(v) => Some(v),
                    Err(_) => None,
                }
            },
            None => {
                let (ch, _) = split_body_at(&cs, 17);
                ch
            },
        }
    }

    /// True iff this register is a board-level register whose name (leading
    /// `/` removed) equals or contains one of `board_param_keys`. Per-channel
    /// registers never count as board-level.
    pub fn is_board_level(&self, board_param_keys: &Vec<String>) -> (r: bool)
        ensures
            r == spec_is_board_level(*self, board_param_keys@.map_values(|k: String| k@)),
    {
        let ghost keys = board_param_keys@.map_values(|k: String| k@);
        if self.is_per_channel() {
            return false;
        }
        let cs = match self.raw_chars() {
            Some(v) => v,
            None => Vec::new(),
        };
        let mut start: usize = 0;
        assert(cs@.skip(0) == cs@);
        while start < cs.len() && cs[start] == '/'
            invariant
                start <= cs@.len(),
                trim_slashes(cs@.skip(start as int)) == trim_slashes(cs@),
            decreases cs.len() - start,
        {
            assert(cs@.skip(start as int).skip(1) == cs@.skip(start + 1));
            start = start + 1;
        }
        assert(cs@.skip(0) == cs@);
        let trimmed = sub_chars(&cs, start, cs.len());
        assert(trimmed@ == cs@.skip(start as int));
        let mut i: usize = 0;
        while i < board_param_keys.len()
            invariant
                i <= board_param_keys@.len(),
                keys == board_param_keys@.map_values(|k: String| k@),
                trimmed@ == trim_slashes(cs@),
                cs@ == (match raw_name(*self) {
                    Some(x) => x,
                    None => Seq::<char>::empty(),
                }),
                !spec_is_per_channel(*self),
                forall|j: int| 0 <= j < i ==> !(trimmed@ == keys[j] || contains_sub(trimmed@, #[trigger] keys[j])),
            decreases board_param_keys.len() - i,
        {
            let k = chars_of(board_param_keys[i].as_str());
            assert(keys[i as int] == k@);
            if crate::chars::chars_equal(&trimmed, &k) || contains(&trimmed, &k) {
                return true;
            }
            i = i + 1;
        }
        false
    }
}

/// A register of the per-channel family whose channel index is `g`
/// (`None` for the broadcast page).
pub open spec fn in_group(r: Register, g: Option<u32>) -> bool {
    spec_is_per_channel(r) && spec_channel_index(r) == g
}

/// Some per-channel register is on the broadcast page.
pub open spec fn has_broadcast(regs: Seq<Register>) -> bool {
    exists|i: int| 0 <= i < regs.len() && in_group(#[trigger] regs[i], None)
}

/// Some per-channel register is on the channel-0 page.
pub open spec fn has_channel0(regs: Seq<Register>) -> bool {
    exists|i: int| 0 <= i < regs.len() && in_group(#[trigger] regs[i], Some(0u32))
}

/// Whether a register is kept as canonical: the broadcast page unless the
/// channel-0 page is preferred; the channel-0 page when preferred or when
/// there is no broadcast page; never another channel.
pub open spec fn keep_canonical(r: Register, use_per_channel: bool, broadcast: bool) -> bool {
    spec_is_per_channel(r) && match spec_channel_index(r) {
        None => !use_per_channel,
        Some(i) => i == 0 && (use_per_channel || !broadcast),
    }
}

/// The canonical registers of a list, in list order.
pub open spec fn canonical(regs: Seq<Register>, prefer_per_channel: bool) -> Seq<Register> {
    let use_pc = prefer_per_channel && has_channel0(regs);
    let bc = has_broadcast(regs);
    regs.filter(|r: Register| keep_canonical(r, use_pc, bc))
}

/// Whether some register of the list is in group `g`.
fn any_in_group(registers: &Vec<Register>, g: Option<u32>) -> (r: bool)
    ensures
        r == exists|i: int| 0 <= i < registers@.len() && in_group(#[trigger] registers@[i], g),
{
    let mut i: usize = 0;
    while i < registers.len()
        invariant
            i <= registers@.len(),
            forall|j: int| 0 <= j < i ==> !in_group(#[trigger] registers@[j], g),
        decreases registers.len() - i,
    {
        if registers[i].is_per_channel() && registers[i].channel_index() == g {
            return true;
        }
        i = i + 1;
    }
    false
}

/// The canonical per-channel registers, broadcast page first: see
/// `select_canonical_per_channel_with` with `prefer_per_channel` false.
pub fn select_canonical_per_channel(registers: &Vec<Register>) -> (r: Vec<&Register>)
    ensures
        r@.len() == canonical(registers@, false).len(),
        forall|i: int| 0 <= i < r@.len() ==> *r@[i] == #[trigger] canonical(registers@, false)[i],
{
    select_canonical_per_channel_with(registers, false)
}

/// Pick the canonical per-channel register entries, in list order. Across
/// firmware eras the canonical entry is the one without a channel index
/// (the broadcast page); when there is none, the channel-0 page stands in.
/// With `prefer_per_channel` the channel-0 page wins over the broadcast page
/// whenever it exists. Board-level registers and channels above 0 are
/// dropped.
pub fn select_canonical_per_channel_with(registers: &Vec<Register>, prefer_per_channel: bool) -> (r: Vec<&Register>)
    ensures
        r@.len() == canonical(registers@, prefer_per_channel).len(),
        forall|i: int| 0 <= i < r@.len() ==> *r@[i] == #[trigger] canonical(registers@, prefer_per_channel)[i],
{
    let has_bc = any_in_group(registers, None);
    let has_ch0 = any_in_group(registers, Some(0u32));
    let use_pc = prefer_per_channel && has_ch0;
    let ghost pred = |r: Register| keep_canonical(r, use_pc, has_bc);
    let mut out: Vec<&Register> = Vec::new();
    let mut i: usize = 0;
    while i < registers.len()
        invariant
            i <= registers@.len(),
            pred == (|r: Register| keep_canonical(r, use_pc, has_bc)),
            out@.len() == registers@.take(i as int).filter(pred).len(),
            forall|j: int| 0 <= j < out@.len() ==> *out@[j] == #[trigger] registers@.take(i as int).filter(pred)[j],
        decreases registers.len() - i,
    {
        let r = &registers[i];
        let keep = if !r.is_per_channel() {
            false
        } else {
            match r.channel_index() {
                None => !use_pc,
                Some(ix) => ix == 0 && (use_pc || !has_bc),
            }
        };
        proof {
            assert(registers@.take(i + 1).drop_last() == registers@.take(i as int));
            assert(registers@.take(i + 1).last() == registers@[i as int]);
            assert(keep == pred(registers@[i as int]));
        }
        let ghost old_out = out@;
        if keep {
            out.push(r);
            proof {
                reveal(Seq::filter);
                assert(registers@.take(i + 1).filter(pred) == registers@.take(i as int).filter(pred).push(registers@[i as int]));
                assert forall|j: int| 0 <= j < out@.len() implies *out@[j] == #[trigger] registers@.take(i + 1).filter(pred)[j] by {
                    if j < old_out.len() {
                        assert(out@[j] == old_out[j]);
                    }
                }
            }
        } else {
            proof {
                reveal(Seq::filter);
                assert(registers@.take(i + 1).filter(pred) == registers@.take(i as int).filter(pred));
            }
        }
        i = i + 1;
    }
    proof {
        assert(registers@.take(registers@.len() as int) == registers@);
    }
    out
}

/// Auto-derived register-page layout. All values are word units (the FELib
/// byte address is `word * 4`).
#[derive(Debug, Clone, Copy, PartialEq, Eq, Structural)]
pub struct DerivedLayout {
    /// Base of the canonical (per-channel ch0, or broadcast fallback) page.
    pub page_base: u32,
    /// Word stride between consecutive per-channel pages (`0` if none).
    pub page_stride: u32,
    /// Base of the broadcast page (`page_base` when no broadcast group exists).
    pub broadcast_base: u32,
    /// Number of per-channel pages: the span `0..=max index` (`0` when there
    /// are no per-channel pages).
    pub channel_pages: u32,
    /// True when the per-channel ch0 page is the canonical `REG_*` source.
    pub prefer_per_channel: bool,
}

/// The smaller of two addresses.
pub open spec fn min_u32(a: u32, b: u32) -> u32 {
    if a <= b { a } else { b }
}

/// Lowest address of the registers of group `g`.
pub open spec fn group_min(s: Seq<Register>, g: Option<u32>) -> Option<u32>
    decreases s.len(),
{
    if s.len() == 0 {
        None
    } else {
        let m = group_min(s.drop_last(), g);
        if in_group(s.last(), g) {
            Some(match m {
                Some(a) => min_u32(a, s.last().address),
                None => s.last().address,
            })
        } else {
            m
        }
    }
}

/// Smallest positive channel index of the per-channel registers.
pub open spec fn least_positive_index(s: Seq<Register>) -> Option<u32>
    decreases s.len(),
{
    if s.len() == 0 {
        None
    } else {
        let m = least_positive_index(s.drop_last());
        let r = s.last();
        if spec_is_per_channel(r) && spec_channel_index(r) is Some && spec_channel_index(r)->0 > 0 {
            let k = spec_channel_index(r)->0;
            Some(match m {
                Some(a) => min_u32(a, k),
                None => k,
            })
        } else {
            m
        }
    }
}

/// Largest channel index of the per-channel registers.
pub open spec fn max_index(s: Seq<Register>) -> Option<u32>
    decreases s.len(),
{
    if s.len() == 0 {
        None
    } else {
        let m = max_index(s.drop_last());
        let r = s.last();
        if spec_is_per_channel(r) && spec_channel_index(r) is Some {
            let k = spec_channel_index(r)->0;
            Some(match m {
                Some(a) => if a >= k { a } else { k },
                None => k,
            })
        } else {
            m
        }
    }
}

/// The layout that a register list yields.
pub open spec fn spec_layout(s: Seq<Register>, prefer_override: Option<bool>) -> DerivedLayout {
    let bmin = group_min(s, None);
    let ch0 = group_min(s, Some(0u32));
    let prefer = match prefer_override {
        Some(b) => b,
        None => ch0 is Some,
    };
    let page_base: u32 = if prefer && ch0 is Some {
        ch0->0
    } else if bmin is Some {
        bmin->0
    } else if ch0 is Some {
        ch0->0
    } else {
        0
    };
    let page_stride: u32 = match (ch0, least_positive_index(s)) {
        (Some(a0), Some(k)) => {
            let ak = group_min(s, Some(k))->0;
            let delta: u32 = if ak >= a0 { (ak - a0) as u32 } else { 0 };
            if delta % k == 0 { delta / k } else { delta }
        },
        _ => 0,
    };
    DerivedLayout {
        page_base,
        page_stride,
        broadcast_base: match bmin {
            Some(b) => b,
            None => page_base,
        },
        channel_pages: match max_index(s) {
            Some(m) => (m + 1) as u32,
            None => 0,
        },
        prefer_per_channel: prefer,
    }
}

/// A positive channel index with registers is at least the least positive
/// index.
proof fn lemma_group_bounds_least(s: Seq<Register>, k: u32)
    requires
        k > 0,
        group_min(s, Some(k)) is Some,
    ensures
        least_positive_index(s) matches Some(m) && m <= k,
    decreases s.len(),
{
    if s.len() > 0 {
        if group_min(s.drop_last(), Some(k)) is Some {
            lemma_group_bounds_least(s.drop_last(), k);
        }
    }
}

/// One more register: how the folds of the layout change.
proof fn lemma_push_folds(pre: Seq<Register>, r: Register, g: Option<u32>)
    ensures
        group_min(pre.push(r), g) == (if in_group(r, g) {
            Some(match group_min(pre, g) {
                Some(a) => min_u32(a, r.address),
                None => r.address,
            })
        } else {
            group_min(pre, g)
        }),
        least_positive_index(pre.push(r)) == (if spec_is_per_channel(r) && spec_channel_index(r) is Some
            && spec_channel_index(r)->0 > 0 {
            Some(match least_positive_index(pre) {
                Some(a) => min_u32(a, spec_channel_index(r)->0),
                None => spec_channel_index(r)->0,
            })
        } else {
            least_positive_index(pre)
        }),
        max_index(pre.push(r)) == (if spec_is_per_channel(r) && spec_channel_index(r) is Some {
            Some(match max_index(pre) {
                Some(a) => if a >= spec_channel_index(r)->0 { a } else { spec_channel_index(r)->0 },
                None => spec_channel_index(r)->0,
            })
        } else {
            max_index(pre)
        }),
{
    assert(pre.push(r).drop_last() == pre);
}

/// A least positive index is positive.
proof fn lemma_least_positive(s: Seq<Register>)
    ensures
        least_positive_index(s) matches Some(k) ==> k > 0,
    decreases s.len(),
{
    if s.len() > 0 {
        lemma_least_positive(s.drop_last());
    }
}

/// Derive the page layout from the register list. `prefer_override` forces
/// the canonical-group choice; when `None`, the per-channel ch0 page wins
/// whenever one exists. The stride is `(addr(ch-k) - addr(ch0)) / k` for the
/// smallest `k > 0` present (the raw difference when it does not divide).
pub fn derive_layout(registers: &Vec<Register>, prefer_override: Option<bool>) -> (r: DerivedLayout)
    requires
        max_index(registers@) matches Some(m) ==> m < u32::MAX,
    ensures
        r == spec_layout(registers@, prefer_override),
{
    let ghost s = registers@;
    let mut bmin: Option<u32> = None;
    let mut ch0: Option<u32> = None;
    let mut best: Option<(u32, u32)> = None;
    let mut maxi: Option<u32> = None;
    let mut i: usize = 0;
    while i < registers.len()
        invariant
            i <= s.len(),
            s == registers@,
            bmin == group_min(s.take(i as int), None),
            ch0 == group_min(s.take(i as int), Some(0u32)),
            maxi == max_index(s.take(i as int)),
            match least_positive_index(s.take(i as int)) {
                None => best is None,
                Some(k) => k > 0 && best == Some((k, group_min(s.take(i as int), Some(k))->0)) && group_min(
                    s.take(i as int),
                    Some(k),
                ) is Some,
            },
        decreases registers.len() - i,
    {
        let ghost pre = s.take(i as int);
        let r = &registers[i];
        proof {
            assert(s.take(i + 1) == pre.push(s[i as int]));
            lemma_push_folds(pre, s[i as int], None);
            lemma_push_folds(pre, s[i as int], Some(0u32));
            lemma_least_positive(pre);
            lemma_least_positive(s.take(i + 1));
            if spec_channel_index(s[i as int]) is Some {
                lemma_push_folds(pre, s[i as int], spec_channel_index(s[i as int]));
            }
            if least_positive_index(pre) is Some {
                lemma_push_folds(pre, s[i as int], least_positive_index(pre));
            }
        }
        if r.is_per_channel() {
            let a = r.address;
            match r.channel_index() {
                None => {
                    bmin = Some(match bmin {
                        Some(m) => if m <= a { m } else { a },
                        None => a,
                    });
                },
                Some(ix) => {
                    if ix == 0 {
                        ch0 = Some(match ch0 {
                            Some(m) => if m <= a { m } else { a },
                            None => a,
                        });
                    } else {
                        match best {
                            None => {
                                proof {
                                    if group_min(pre, Some(ix)) is Some {
                                        lemma_group_bounds_least(pre, ix);
                                    }
                                }
                                best = Some((ix, a));
                            },
                            Some((k, m)) => {
                                if ix < k {
                                    proof {
                                        if group_min(pre, Some(ix)) is Some {
                                            lemma_group_bounds_least(pre, ix);
                                        }
                                    }
                                    best = Some((ix, a));
                                } else if ix == k {
                                    best = Some((k, if m <= a { m } else { a }));
                                }
                            },
                        }
                    }
                    maxi = Some(match maxi {
                        Some(m) => if m >= ix { m } else { ix },
                        None => ix,
                    });
                },
            }
        }
        i = i + 1;
    }
    proof {
        assert(s.take(s.len() as int) == s);
    }
    let has_ch0 = ch0.is_some();
    let prefer = match prefer_override {
        Some(b) => b,
        None => has_ch0,
    };
    let page_base: u32 = if prefer && has_ch0 {
        ch0.unwrap()
    } else if bmin.is_some() {
        bmin.unwrap()
    } else if has_ch0 {
        ch0.unwrap()
    } else {
        0
    };
    let page_stride: u32 = match (ch0, best) {
        (Some(a0), Some((k, ak))) => {
            let delta: u32 = ak.saturating_sub(a0);
            if delta % k == 0 { delta / k } else { delta }
        },
        _ => 0,
    };
    let broadcast_base = match bmin {
        Some(b) => b,
        None => page_base,
    };
    let channel_pages: u32 = match maxi {
        Some(m) => m + 1,
        None => 0,
    };
    DerivedLayout { page_base, page_stride, broadcast_base, channel_pages, prefer_per_channel: prefer }
}

/// A channel-0 register whose key is `key`.
pub open spec fn ch0_with_key(r: Register, key: Seq<char>) -> bool {
    in_group(r, Some(0u32)) && spec_fw_key(r) == Some(key)
}

/// `i` is the first channel-0 register with key `key`.
pub open spec fn first_ch0_at(s: Seq<Register>, key: Seq<char>, i: int) -> bool {
    0 <= i < s.len() && ch0_with_key(s[i], key) && forall|j: int| 0 <= j < i ==> !ch0_with_key(#[trigger] s[j], key)
}

/// Address of the first channel-0 register with key `key`.
pub open spec fn first_ch0_addr(s: Seq<Register>, key: Seq<char>) -> Option<u32> {
    if exists|i: int| first_ch0_at(s, key, i) {
        Some(s[choose|i: int| first_ch0_at(s, key, i)].address)
    } else {
        None
    }
}

/// The broadcast register `r` sits at a different in-page offset than the
/// channel-0 register of the same key.
pub open spec fn offsets_differ(s: Seq<Register>, r: Register, page_base: u32, broadcast_base: u32) -> bool {
    &&& in_group(r, None)
    &&& spec_fw_key(r) is Some
    &&& first_ch0_addr(s, spec_fw_key(r)->0) is Some
    &&& r.address - broadcast_base != first_ch0_addr(s, spec_fw_key(r)->0)->0 - page_base
}

/// Upper-case hexadecimal of an `i64` as `{:X}` writes it (two's
/// complement for a negative value).
pub open spec fn hex_i64(v: int) -> Seq<char> {
    hex_upper((if v >= 0 { v } else { v + 0x1_0000_0000_0000_0000 }) as nat)
}

/// The message of a refused layout.
pub open spec fn mismatch_text(
    key: Seq<char>,
    off_bc: int,
    addr: u32,
    broadcast_base: u32,
    off_ch0: int,
    a0: u32,
    page_base: u32,
) -> Seq<char> {
    "broadcast/per-channel layout mismatch for `"@ + key + "`: broadcast offset 0x"@ + hex_i64(off_bc)
        + " (addr 0x"@ + hex_upper(addr as nat) + " - base 0x"@ + hex_upper(broadcast_base as nat)
        + ") != ch0 offset 0x"@ + hex_i64(off_ch0) + " (addr 0x"@ + hex_upper(a0 as nat)
        + " - base 0x"@ + hex_upper(page_base as nat)
        + "). Writing this FW would corrupt registers \u{2014} codegen aborted."@
}

/// What the layout guard answers for a register list.
pub open spec fn spec_guard(s: Seq<Register>, page_base: u32, broadcast_base: u32) -> Result<(), Seq<char>> {
    if exists|i: int| 0 <= i < s.len() && offsets_differ(s, #[trigger] s[i], page_base, broadcast_base) {
        let i = choose|i: int|
            0 <= i < s.len() && offsets_differ(s, #[trigger] s[i], page_base, broadcast_base) && forall|j: int|
                0 <= j < i ==> !offsets_differ(s, #[trigger] s[j], page_base, broadcast_base);
        let r = s[i];
        let k = spec_fw_key(r)->0;
        let a0 = first_ch0_addr(s, k)->0;
        Err(mismatch_text(k, r.address - broadcast_base, r.address, broadcast_base, a0 - page_base, a0, page_base))
    } else {
        Ok(())
    }
}

/// Address of the first channel-0 register whose key is `key`.
fn find_ch0_addr(registers: &Vec<Register>, key: &String) -> (r: Option<u32>)
    ensures
        r == first_ch0_addr(registers@, key@),
{
    let ghost s = registers@;
    let mut i: usize = 0;
    while i < registers.len()
        invariant
            i <= s.len(),
            s == registers@,
            forall|j: int| 0 <= j < i ==> !ch0_with_key(#[trigger] s[j], key@),
        decreases registers.len() - i,
    {
        let r = &registers[i];
        if r.is_per_channel() && r.channel_index() == Some(0u32) {
            match r.fw_key() {
                Some(k) => {
                    if k == *key {
                        proof {
                            assert(first_ch0_at(s, key@, i as int));
                            let w = choose|w: int| first_ch0_at(s, key@, w);
                            if w < i {
                                assert(!ch0_with_key(s[w], key@));
                            } else if w > i {
                                assert(!ch0_with_key(s[i as int], key@));
                            }
                        }
                        return Some(r.address);
                    }
                },
                None => {},
            }
        }
        i = i + 1;
    }
    assert(!exists|w: int| first_ch0_at(s, key@, w));
    None
}

/// `{:X}` of an `i64` within the `u32` difference range.
fn hex_of_offset(v: i64) -> (r: String)
    requires
        -0x1_0000_0000 < v < 0x1_0000_0000,
    ensures
        r@ == hex_i64(v as int),
{
    if v >= 0 {
        u64_to_hex_upper(v as u64)
    } else {
        let m: u64 = (-1 - v) as u64;
        u64_to_hex_upper(u64::MAX - m)
    }
}

/// Firmware-corruption guard: the broadcast page and the per-channel ch0
/// page must share one in-page offset layout, because one offset list
/// drives writes to both. For each broadcast register (in list order) with
/// a channel-0 twin of the same key, the offsets from the two bases must be
/// equal; the first that differs is reported.
pub fn assert_broadcast_layout_matches(registers: &Vec<Register>, page_base: u32, broadcast_base: u32) -> (r: Result<(), String>)
    ensures
        match spec_guard(registers@, page_base, broadcast_base) {
            Ok(_) => r is Ok,
            Err(m) => r matches Err(e) && e@ == m,
        },
{
    let ghost s = registers@;
    let mut i: usize = 0;
    while i < registers.len()
        invariant
            i <= s.len(),
            s == registers@,
            forall|j: int| 0 <= j < i ==> !offsets_differ(s, #[trigger] s[j], page_base, broadcast_base),
        decreases registers.len() - i,
    {
        let r = &registers[i];
        if r.is_per_channel() && r.channel_index().is_none() {
            match r.fw_key() {
                Some(k) => {
                    match find_ch0_addr(registers, &k) {
                        Some(a0) => {
                            let off_bc: i64 = (r.address as i64) - (broadcast_base as i64);
                            let off_ch0: i64 = (a0 as i64) - (page_base as i64);
                            if off_bc != off_ch0 {
                                proof {
                                    assert(offsets_differ(s, s[i as int], page_base, broadcast_base));
                                    let w = choose|w: int|
                                        0 <= w < s.len() && offsets_differ(s, #[trigger] s[w], page_base, broadcast_base)
                                            && forall|j: int| 0 <= j < w ==> !offsets_differ(s, #[trigger] s[j], page_base, broadcast_base);
                                    if w < i {
                                        assert(!offsets_differ(s, s[w], page_base, broadcast_base));
                                    } else if w > i {
                                        assert(!offsets_differ(s, s[i as int], page_base, broadcast_base));
                                    }
                                }
                                let mut m = String::from_str("broadcast/per-channel layout mismatch for `");
                                m.append(k.as_str());
                                m.append("`: broadcast offset 0x");
                                m.append(hex_of_offset(off_bc).as_str());
                                m.append(" (addr 0x");
                                m.append(u64_to_hex_upper(r.address as u64).as_str());
                                m.append(" - base 0x");
                                m.append(u64_to_hex_upper(broadcast_base as u64).as_str());
                                m.append(") != ch0 offset 0x");
                                m.append(hex_of_offset(off_ch0).as_str());
                                m.append(" (addr 0x");
                                m.append(u64_to_hex_upper(a0 as u64).as_str());
                                m.append(" - base 0x");
                                m.append(u64_to_hex_upper(page_base as u64).as_str());
                                m.append("). Writing this FW would corrupt registers \u{2014} codegen aborted.");
                                return Err(m);
                            }
                        },
                        None => {},
                    }
                },
                None => {},
            }
        }
        i = i + 1;
    }
    Ok(())
}

/// The header of a generated Rust file, naming its two sources.
pub open spec fn header_rust_text(register_file: Seq<char>, params_file: Seq<char>) -> Seq<char> {
    "//! AUTO-GENERATED by `cargo run --bin amax_codegen`. Do not edit by hand.\n//!\n//! Sources:\n//! - "@
        + register_file + "\n//! - "@ + params_file + "\n"@
}

/// The header of a generated Rust file, naming its two sources.
pub fn header_rust(register_file: &str, params_file: &str) -> (r: String)
    ensures
        r@ == header_rust_text(register_file@, params_file@),
{
    let mut out = String::from_str("//! AUTO-GENERATED by `cargo run --bin amax_codegen`. Do not edit by hand.\n//!\n//! Sources:\n//! - ");
    out.append(register_file);
    out.append("\n//! - ");
    out.append(params_file);
    out.append("\n");
    out
}

/// What `char::to_uppercase` yields for a character.
pub uninterp spec fn char_upper(c: char) -> Seq<char>;

/// What `str::to_lowercase` yields for a string.
pub uninterp spec fn str_lower(s: Seq<char>) -> Seq<char>;

/// What `str::to_uppercase` yields for a string.
pub uninterp spec fn str_upper(s: Seq<char>) -> Seq<char>;

/// The ASCII upper-case form of a character (others unchanged).
pub open spec fn ascii_upper_char(c: char) -> char {
    if 'a' <= c <= 'z' { ((c as u32) - 32) as char } else { c }
}

/// The ASCII lower-case form of a character (others unchanged).
pub open spec fn ascii_lower_char(c: char) -> char {
    if 'A' <= c <= 'Z' { ((c as u32) + 32) as char } else { c }
}

/// Every character of `s` is ASCII.
pub open spec fn all_ascii(s: Seq<char>) -> bool {
    forall|i: int| 0 <= i < s.len() ==> (#[trigger] s[i] as u32) < 128
}

/// `char::to_uppercase`, collected into a string. The full mapping is
/// Unicode's; for an ASCII character it is the ASCII upper case.
#[verifier::external_body]
fn upper_char(c: char) -> (r: String)
    ensures
        r@ == char_upper(c),
        (c as u32) < 128 ==> r@ == seq![ascii_upper_char(c)],
{
    c.to_uppercase().collect::<String>()
}

/// `str::to_lowercase`. The full mapping is Unicode's (context-dependent
/// for a final sigma); an ASCII string maps character by character to its
/// ASCII lower case.
#[verifier::external_body]
fn lower_str(s: &str) -> (r: String)
    ensures
        r@ == str_lower(s@),
        all_ascii(s@) ==> r@ == s@.map_values(|c: char| ascii_lower_char(c)),
{
    s.to_lowercase()
}

/// `str::to_uppercase`. The full mapping is Unicode's; an ASCII string maps
/// character by character to its ASCII upper case.
#[verifier::external_body]
fn upper_str(s: &str) -> (r: String)
    ensures
        r@ == str_upper(s@),
        all_ascii(s@) ==> r@ == s@.map_values(|c: char| ascii_upper_char(c)),
{
    s.to_uppercase()
}

/// The Rust/TypeScript field name of a firmware register name: its lower
/// case.
pub fn snake_case(name: &str) -> (r: String)
    ensures
        r@ == str_lower(name@),
        all_ascii(name@) ==> r@ == name@.map_values(|c: char| ascii_lower_char(c)),
{
    lower_str(name)
}

/// The upper case of a string (the `REG_<NAME>` constant form).
pub fn to_upper(name: &str) -> (r: String)
    ensures
        r@ == str_upper(name@),
        all_ascii(name@) ==> r@ == name@.map_values(|c: char| ascii_upper_char(c)),
{
    upper_str(name)
}

/// Title of a category for TypeScript identifiers: the well-known ones by
/// their canonical capitalisation, any other with its first character in
/// upper case.
pub open spec fn spec_category_label(cat: Seq<char>) -> Seq<char> {
    if cat == "input"@ {
        "Input"@
    } else if cat == "trigger"@ {
        "Trigger"@
    } else if cat == "energy"@ {
        "Energy"@
    } else if cat == "waveform"@ {
        "Waveform"@
    } else if cat == "debug"@ {
        "Debug"@
    } else if cat == "amax"@ {
        "AMax"@
    } else if cat.len() == 0 {
        Seq::<char>::empty()
    } else {
        char_upper(cat[0]) + cat.skip(1)
    }
}

/// Title-case a category name for use in TypeScript const identifiers
/// (`AMAX_<LABEL>_PARAMS`).
pub fn category_label(cat: &str) -> (r: String)
    ensures
        r@ == spec_category_label(cat@),
{
    if str_is(cat, "input") {
        String::from_str("Input")
    } else if str_is(cat, "trigger") {
        String::from_str("Trigger")
    } else if str_is(cat, "energy") {
        String::from_str("Energy")
    } else if str_is(cat, "waveform") {
        String::from_str("Waveform")
    } else if str_is(cat, "debug") {
        String::from_str("Debug")
    } else if str_is(cat, "amax") {
        String::from_str("AMax")
    } else {
        let n = cat.unicode_len();
        if n == 0 {
            String::new()
        } else {
            let mut out = upper_char(cat.get_char(0));
            out.append(cat.substring_char(1, n));
            assert(cat@.subrange(1, n as int) == cat@.skip(1));
            out
        }
    }
}

/// Sort key of a category: the well-known ones in signal-pipeline order
/// (input, trigger, energy, amax, waveform, coincidence, debug), any other
/// after them.
pub open spec fn spec_category_rank(cat: Seq<char>) -> u32 {
    if cat == "input"@ {
        0
    } else if cat == "trigger"@ {
        1
    } else if cat == "energy"@ {
        2
    } else if cat == "amax"@ {
        3
    } else if cat == "waveform"@ {
        4
    } else if cat == "coincidence"@ {
        5
    } else if cat == "debug"@ {
        6
    } else {
        1000
    }
}

/// Sort key for emitted category order.
pub fn category_rank(cat: &str) -> (r: u32)
    ensures
        r == spec_category_rank(cat@),
{
    if str_is(cat, "input") {
        0
    } else if str_is(cat, "trigger") {
        1
    } else if str_is(cat, "energy") {
        2
    } else if str_is(cat, "amax") {
        3
    } else if str_is(cat, "waveform") {
        4
    } else if str_is(cat, "coincidence") {
        5
    } else if str_is(cat, "debug") {
        6
    } else {
        1000
    }
}

/// `c` has the Unicode White_Space property.
pub open spec fn is_ws(c: char) -> bool {
    let u = c as u32;
    (0x09 <= u <= 0x0d) || u == 0x20 || u == 0x85 || u == 0xa0 || u == 0x1680 || (0x2000 <= u <= 0x200a)
        || u == 0x2028 || u == 0x2029 || u == 0x202f || u == 0x205f || u == 0x3000
}

fn is_ws_exec(c: char) -> (r: bool)
    ensures
        r == is_ws(c),
{
    let u = c as u32;
    (0x09 <= u && u <= 0x0d) || u == 0x20 || u == 0x85 || u == 0xa0 || u == 0x1680 || (0x2000 <= u && u <= 0x200a)
        || u == 0x2028 || u == 0x2029 || u == 0x202f || u == 0x205f || u == 0x3000
}

/// Number of leading whitespace characters.
pub open spec fn lead_ws(s: Seq<char>) -> nat
    decreases s.len(),
{
    if s.len() > 0 && is_ws(s[0]) { 1 + lead_ws(s.skip(1)) } else { 0 }
}

/// Number of trailing whitespace characters.
pub open spec fn trail_ws(s: Seq<char>) -> nat
    decreases s.len(),
{
    if s.len() > 0 && is_ws(s.last()) { 1 + trail_ws(s.drop_last()) } else { 0 }
}

/// `s` without leading and trailing whitespace (as `str::trim`).
pub open spec fn trim_ws(s: Seq<char>) -> Seq<char> {
    if lead_ws(s) >= s.len() {
        Seq::<char>::empty()
    } else {
        s.subrange(lead_ws(s) as int, s.len() - trail_ws(s))
    }
}

/// The value a command-line address takes: decimal, or hexadecimal behind
/// `0x` / `0X`, after trimming whitespace.
pub open spec fn spec_parse_u32_auto(s: Seq<char>) -> Result<nat, ParseFail> {
    let t = trim_ws(s);
    if has_prefix(t, seq!['0', 'x']) || has_prefix(t, seq!['0', 'X']) {
        parse_u32_spec(t.skip(2), 16)
    } else {
        parse_u32_spec(t, 10)
    }
}

/// The message of `std::num::ParseIntError` for a failure.
pub open spec fn parse_fail_text(e: ParseFail) -> Seq<char> {
    match e {
        ParseFail::Empty => "cannot parse integer from empty string"@,
        ParseFail::InvalidDigit => "invalid digit found in string"@,
        ParseFail::PosOverflow => "number too large to fit in target type"@,
    }
}

/// Bounds of `cs` without leading and trailing whitespace.
fn trim_bounds(cs: &Vec<char>) -> (r: (usize, usize))
    ensures
        r.0 <= r.1 <= cs@.len(),
        cs@.subrange(r.0 as int, r.1 as int) == trim_ws(cs@),
{
    let n = cs.len();
    let mut lo: usize = 0;
    assert(cs@.skip(0) == cs@);
    while lo < n && is_ws_exec(cs[lo])
        invariant
            lo <= n == cs@.len(),
            lead_ws(cs@) == lo + lead_ws(cs@.skip(lo as int)),
        decreases n - lo,
    {
        assert(cs@.skip(lo as int).skip(1) == cs@.skip(lo + 1));
        lo = lo + 1;
    }
    let mut hi: usize = n;
    assert(cs@.take(n as int) == cs@);
    while hi > lo && is_ws_exec(cs[hi - 1])
        invariant
            lo <= hi <= n == cs@.len(),
            lead_ws(cs@) == lo + lead_ws(cs@.skip(lo as int)),
            lo < n ==> !is_ws(cs@[lo as int]),
            lo < n ==> hi > lo,
            trail_ws(cs@) == (n - hi) + trail_ws(cs@.take(hi as int)),
        decreases hi,
    {
        assert(cs@.take(hi as int).drop_last() == cs@.take(hi - 1));
        hi = hi - 1;
    }
    proof {
        if lo < n {
            assert(lead_ws(cs@.skip(lo as int)) == 0);
            assert(!is_ws(cs@.take(hi as int).last()));
            assert(trail_ws(cs@.take(hi as int)) == 0);
        } else {
            assert(cs@.skip(lo as int).len() == 0);
            assert(cs@.subrange(lo as int, hi as int) =~= Seq::<char>::empty());
        }
    }
    (lo, hi)
}

/// Parse `cs[lo..hi]` as decimal, or as hexadecimal behind `0x` / `0X`.
fn parse_auto_in(cs: &Vec<char>, lo: usize, hi: usize) -> (r: Result<u32, ParseFail>)
    requires
        lo <= hi <= cs@.len(),
    ensures
        ({
            let t = cs@.subrange(lo as int, hi as int);
            let spec_r = if has_prefix(t, seq!['0', 'x']) || has_prefix(t, seq!['0', 'X']) {
                parse_u32_spec(t.skip(2), 16)
            } else {
                parse_u32_spec(t, 10)
            };
            match spec_r {
                Ok(v) => r == Ok::<u32, ParseFail>(v as u32),
                Err(e) => r == Err::<u32, ParseFail>(e),
            }
        }),
{
    let ghost t = cs@.subrange(lo as int, hi as int);
    if hi - lo >= 2 && cs[lo] == '0' && (cs[lo + 1] == 'x' || cs[lo + 1] == 'X') {
        proof {
            if cs@[lo + 1] == 'x' {
                assert(t.take(2) =~= seq!['0', 'x']);
            } else {
                assert(t.take(2) =~= seq!['0', 'X']);
            }
            assert(t.skip(2) == cs@.subrange(lo + 2, hi as int));
        }
        parse_u32_in(cs, lo + 2, hi, 16)
    } else {
        proof {
            if t.len() >= 2 {
                assert(t.take(2)[0] == t[0]);
                assert(t.take(2)[1] == t[1]);
            }
        }
        parse_u32_in(cs, lo, hi, 10)
    }
}

/// Parse a `u32` accepting either decimal or a `0x`/`0X`-prefixed hex
/// literal (register addresses are written in hex in CAEN tooling).
pub fn parse_u32_auto(s: &str) -> (r: Result<u32, String>)
    ensures
        match spec_parse_u32_auto(s@) {
            Ok(v) => r == Ok::<u32, String>(v as u32),
            Err(e) => r matches Err(m) && m@ == parse_fail_text(e),
        },
{
    let cs = chars_of(s);
    let (lo, hi) = trim_bounds(&cs);
    match parse_auto_in(&cs, lo, hi) {
        Ok(v) => Ok(v),
        Err(e) => Err(match e {
            ParseFail::Empty => String::from_str("cannot parse integer from empty string"),
            ParseFail::InvalidDigit => String::from_str("invalid digit found in string"),
            ParseFail::PosOverflow => String::from_str("number too large to fit in target type"),
        }),
    }
}

/// The canonical set never mixes pages: its registers are all on the
/// broadcast page or all on the channel-0 page.
pub proof fn lemma_canonical_never_mixes_pages(regs: Seq<Register>, prefer_per_channel: bool, i: int, j: int)
    requires
        0 <= i < canonical(regs, prefer_per_channel).len(),
        0 <= j < canonical(regs, prefer_per_channel).len(),
    ensures
        spec_is_per_channel(canonical(regs, prefer_per_channel)[i]),
        spec_channel_index(canonical(regs, prefer_per_channel)[i]) is None
            || spec_channel_index(canonical(regs, prefer_per_channel)[i]) == Some(0u32),
        spec_channel_index(canonical(regs, prefer_per_channel)[i])
            == spec_channel_index(canonical(regs, prefer_per_channel)[j]),
{
    broadcast use vstd::seq_lib::group_filter_ensures;
    let use_pc = prefer_per_channel && has_channel0(regs);
    let bc = has_broadcast(regs);
    let pred = |r: Register| keep_canonical(r, use_pc, bc);
    let c = regs.filter(pred);
    assert(c == canonical(regs, prefer_per_channel));
    assert(pred(c[i]));
    assert(pred(c[j]));
    assert forall|k: int| 0 <= k < c.len() && spec_channel_index(c[k]) is None implies bc by {
        assert(c.contains(c[k]));
        regs.lemma_filter_contains_rev(pred, c[k]);
        let w = choose|w: int| 0 <= w < regs.len() && regs[w] == c[k];
        assert(in_group(regs[w], None));
    }
}

/// The guard accepts a layout exactly when no broadcast register sits at
/// another in-page offset than its channel-0 twin.
pub proof fn lemma_guard_accepts_iff_offsets_agree(s: Seq<Register>, page_base: u32, broadcast_base: u32)
    ensures
        spec_guard(s, page_base, broadcast_base) is Ok <==> forall|i: int|
            0 <= i < s.len() ==> !offsets_differ(s, #[trigger] s[i], page_base, broadcast_base),
{
}

/// `s` starts with a `<digits>_` page-index token.
pub open spec fn starts_with_index_token(s: Seq<char>) -> bool {
    exists|us: int| first_at(s, '_', us) && us > 0 && all_digits(s.take(us))
}

/// The register name that `split_body` leaves never starts with a page
/// index token: every leading `<digits>_` token is consumed.
pub proof fn lemma_split_body_consumes_index_tokens(rest: Seq<char>, ch: Option<u32>)
    ensures
        !starts_with_index_token(split_body(rest, ch).1),
    decreases rest.len(),
{
    if exists|i: int| first_at(rest, '_', i) {
        let us = choose|i: int| first_at(rest, '_', i);
        let head = rest.take(us);
        if head.len() == 0 || !all_digits(head) {
            assert forall|u: int| first_at(rest, '_', u) implies !(u > 0 && all_digits(rest.take(u))) by {
                crate::chars::lemma_first_at_unique(rest, '_', u, us);
            }
        } else {
            lemma_split_body_consumes_index_tokens(rest.skip(us + 1), parse_ok(head));
        }
    }
}

/// Every character of a decimal rendering is a digit.
proof fn lemma_decimal_digits(n: nat)
    ensures
        all_digits(decimal(n)),
        decimal(n).len() >= 1,
        decimal(n)[0] == '0' ==> n == 0,
        decimal(n).len() == 1 || decimal(n)[0] != '0',
    decreases n,
{
    if n >= 10 {
        lemma_decimal_digits(n / 10);
        let d = decimal(n / 10);
        assert(decimal(n) == d + seq![digit_char(n % 10)]);
        assert(decimal(n)[0] == d[0]);
        assert forall|i: int| 0 <= i < decimal(n).len() implies is_digit(#[trigger] decimal(n)[i]) by {
            if i < d.len() {
                assert(decimal(n)[i] == d[i]);
            }
        }
    }
}

/// The digit character of a value below the radix reads back as that
/// value.
proof fn lemma_digit_roundtrip(d: nat, radix: nat)
    requires
        radix == 10 || radix == 16,
        d < radix,
    ensures
        crate::chars::digit_value(digit_char(d), radix) == Some(d),
{
    if d == 0 { assert(('0' as nat) == 48); }
    else if d == 1 { assert(('1' as nat) == 49); }
    else if d == 2 { assert(('2' as nat) == 50); }
    else if d == 3 { assert(('3' as nat) == 51); }
    else if d == 4 { assert(('4' as nat) == 52); }
    else if d == 5 { assert(('5' as nat) == 53); }
    else if d == 6 { assert(('6' as nat) == 54); }
    else if d == 7 { assert(('7' as nat) == 55); }
    else if d == 8 { assert(('8' as nat) == 56); }
    else if d == 9 { assert(('9' as nat) == 57); }
    else if d == 10 { assert(('A' as nat) == 65); }
    else if d == 11 { assert(('B' as nat) == 66); }
    else if d == 12 { assert(('C' as nat) == 67); }
    else if d == 13 { assert(('D' as nat) == 68); }
    else if d == 14 { assert(('E' as nat) == 69); }
    else { assert(('F' as nat) == 70); }
}

/// Scanning the decimal rendering of a `u32` gives it back.
proof fn lemma_scan_decimal(n: nat)
    requires
        n <= u32::MAX,
    ensures
        scan_digits(decimal(n), 10) == Ok::<nat, ParseFail>(n),
    decreases n,
{
    lemma_digit_roundtrip(n % 10, 10);
    let s = decimal(n);
    if n < 10 {
        assert(s.drop_last() =~= Seq::<char>::empty());
        assert(scan_digits(s.drop_last(), 10) == Ok::<nat, ParseFail>(0));
        assert(s.last() == digit_char(n % 10));
        assert(0 * 10 + n % 10 == n);
    } else {
        lemma_scan_decimal(n / 10);
        let d = decimal(n / 10);
        assert(s.drop_last() == d);
        assert(s.last() == digit_char(n % 10));
        vstd::arithmetic::div_mod::lemma_fundamental_div_mod(n as int, 10);
        assert((n / 10) * 10 + n % 10 == n);
    }
}

/// Scanning the hexadecimal rendering of a `u32` gives it back.
proof fn lemma_scan_hex(n: nat)
    requires
        n <= u32::MAX,
    ensures
        scan_digits(hex_upper(n), 16) == Ok::<nat, ParseFail>(n),
        hex_upper(n).len() >= 1,
        hex_upper(n)[0] != '+' && hex_upper(n)[0] != '-',
        !is_ws(hex_upper(n).last()),
    decreases n,
{
    lemma_digit_roundtrip(n % 16, 16);
    let s = hex_upper(n);
    if n < 16 {
        assert(s.drop_last() =~= Seq::<char>::empty());
        assert(scan_digits(s.drop_last(), 16) == Ok::<nat, ParseFail>(0));
        assert(s.last() == digit_char(n % 16));
        assert(0 * 16 + n % 16 == n);
    } else {
        lemma_scan_hex(n / 16);
        let d = hex_upper(n / 16);
        assert(s.drop_last() == d);
        assert(s[0] == d[0]);
        assert(s.last() == digit_char(n % 16));
        vstd::arithmetic::div_mod::lemma_fundamental_div_mod(n as int, 16);
        assert((n / 16) * 16 + n % 16 == n);
    }
}

/// A command-line value given in decimal (`format!("{}", v)`) parses
/// back to that value.
pub proof fn lemma_parse_auto_reads_decimal(v: u32)
    ensures
        spec_parse_u32_auto(decimal(v as nat)) == Ok::<nat, ParseFail>(v as nat),
{
    let t = decimal(v as nat);
    lemma_decimal_digits(v as nat);
    lemma_scan_decimal(v as nat);
    assert(!is_ws(t[0]));
    assert(lead_ws(t) == 0);
    assert(is_digit(t[t.len() - 1]));
    assert(trail_ws(t) == 0);
    assert(t.subrange(0, t.len() as int) == t);
    assert(trim_ws(t) == t);
    if t.len() >= 2 {
        assert(t.take(2)[1] == t[1]);
        assert(is_digit(t[1]));
    }
    assert(is_digit(t[0]));
}

/// A command-line value given in hexadecimal behind `0x`
/// (`format!("0x{:X}", v)`) parses back to that value.
pub proof fn lemma_parse_auto_reads_hex(v: u32)
    ensures
        spec_parse_u32_auto(seq!['0', 'x'] + hex_upper(v as nat)) == Ok::<nat, ParseFail>(v as nat),
{
    let h = hex_upper(v as nat);
    let t = seq!['0', 'x'] + h;
    lemma_scan_hex(v as nat);
    assert(!is_ws(t[0]));
    assert(lead_ws(t) == 0);
    assert(t.last() == h.last());
    assert(trail_ws(t) == 0);
    assert(t.subrange(0, t.len() as int) == t);
    assert(trim_ws(t) == t);
    assert(t.take(2) =~= seq!['0', 'x']);
    assert(t.skip(2) == h);
}

/// The `pub const REG_` prefix of a register constant line.
pub open spec fn reg_const_prefix() -> Seq<char> {
    seq!['p', 'u', 'b', ' ', 'c', 'o', 'n', 's', 't', ' ', 'R', 'E', 'G', '_']
}

/// The register name a line of a generated register file declares, if
/// it declares one: the text after `pub const REG_` up to the first `:`,
/// trimmed.
pub open spec fn line_reg_name(line: Seq<char>) -> Option<Seq<char>> {
    let t = trim_ws(line);
    if has_prefix(t, reg_const_prefix()) {
        let rest = t.skip(14);
        Some(trim_ws(match find_char(rest, ':') {
            Some(c) => rest.take(c),
            None => rest,
        }))
    } else {
        None
    }
}

/// The lines of a text (split at `\n`; a final empty line is not one).
pub open spec fn text_lines(s: Seq<char>) -> Seq<Seq<char>>
    decreases s.len(),
{
    if s.len() == 0 {
        Seq::empty()
    } else if exists|i: int| first_at(s, '\n', i) {
        let i = choose|i: int| first_at(s, '\n', i);
        seq![s.take(i)] + text_lines(s.skip(i + 1))
    } else {
        seq![s]
    }
}

/// The register names declared by the lines, in order.
pub open spec fn reg_names_of(lines: Seq<Seq<char>>) -> Seq<Seq<char>>
    decreases lines.len(),
{
    if lines.len() == 0 {
        Seq::empty()
    } else {
        let rest = reg_names_of(lines.skip(1));
        match line_reg_name(lines[0]) {
            Some(n) => seq![n] + rest,
            None => rest,
        }
    }
}

/// The register name a line `cs[lo..hi]` declares, if any.
fn line_name(cs: &Vec<char>, lo: usize, hi: usize, prefix: &Vec<char>) -> (r: Option<String>)
    requires
        lo <= hi <= cs@.len(),
        prefix@ == reg_const_prefix(),
    ensures
        match line_reg_name(cs@.subrange(lo as int, hi as int)) {
            Some(n) => r matches Some(s) && s@ == n,
            None => r is None,
        },
{
    let line = crate::chars::sub_chars(cs, lo, hi);
    let (a, b) = trim_bounds(&line);
    let t = crate::chars::sub_chars(&line, a, b);
    if !starts_with(&t, prefix) {
        return None;
    }
    let end: usize = match find_from(&t, 14, ':') {
        Some(c) => c,
        None => t.len(),
    };
    proof {
        if end < t@.len() {
            assert(t@.skip(14).take(end - 14) == t@.subrange(14, end as int));
        } else {
            assert(t@.skip(14) == t@.subrange(14, end as int));
        }
    }
    let name = crate::chars::sub_chars(&t, 14, end);
    let (c, d) = trim_bounds(&name);
    Some(string_of(&name, c, d))
}

/// The `REG_<NAME>` names declared by a generated register file, in order
/// (the names of a previous generation, for the change summary).
pub fn reg_names_in(text: &str) -> (r: Vec<String>)
    ensures
        r@.map_values(|s: String| s@) == reg_names_of(text_lines(text@)),
{
    let cs = chars_of(text);
    let prefix = {
        proof {
            reveal_strlit("pub const REG_");
        }
        chars_of("pub const REG_")
    };
    let mut out: Vec<String> = Vec::new();
    let mut pos: usize = 0;
    let ghost total = reg_names_of(text_lines(cs@));
    assert(cs@.skip(0) == cs@);
    while pos < cs.len()
        invariant
            pos <= cs@.len(),
            prefix@ == reg_const_prefix(),
            total == reg_names_of(text_lines(cs@)),
            out@.map_values(|s: String| s@) + reg_names_of(text_lines(cs@.skip(pos as int))) == total,
        decreases cs.len() - pos,
    {
        let ghost rest = cs@.skip(pos as int);
        let (end, next) = match find_from(&cs, pos, '\n') {
            Some(i) => (i, i + 1),
            None => (cs.len(), cs.len()),
        };
        proof {
            assert(rest.len() > 0);
            if next == end + 1 {
                let k = choose|k: int| first_at(rest, '\n', k);
                assert(rest.take(end - pos) == cs@.subrange(pos as int, end as int));
                assert(rest.skip(end - pos + 1) == cs@.skip(next as int));
                assert(text_lines(rest) == seq![cs@.subrange(pos as int, end as int)] + text_lines(cs@.skip(next as int)));
            } else {
                assert(rest == cs@.subrange(pos as int, end as int));
                assert(cs@.skip(next as int).len() == 0);
                assert(text_lines(cs@.skip(next as int)) == Seq::<Seq<char>>::empty());
                assert(text_lines(rest) == seq![cs@.subrange(pos as int, end as int)] + text_lines(cs@.skip(next as int)));
            }
            let ls = text_lines(rest);
            assert(ls[0] == cs@.subrange(pos as int, end as int));
            assert(ls.skip(1) == text_lines(cs@.skip(next as int)));
        }
        let ghost before = out@.map_values(|s: String| s@);
        match line_name(&cs, pos, end, &prefix) {
            Some(n) => {
                out.push(n);
                assert(out@.map_values(|s: String| s@) == before + seq![n@]);
            },
            None => {},
        }
        pos = next;
    }
    assert(text_lines(cs@.skip(pos as int)) == Seq::<Seq<char>>::empty());
    assert(out@.map_values(|s: String| s@) + Seq::<Seq<char>>::empty() == out@.map_values(|s: String| s@));
    out
}

} // verus!
