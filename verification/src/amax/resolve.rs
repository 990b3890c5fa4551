//! Resolution of the canonical registers against the firmware parameter
//! metadata (`fw_params.json`): which registers become fields of the
//! generated channel and board configurations, with their UI metadata.

use vstd::prelude::*;
use vstd::string::*;
use crate::amax::{
    raw_name, snake_case, spec_fw_key, spec_is_board_level, str_lower, trim_slashes, Register,
};
use crate::chars::{chars_of, chars_equal, contains, contains_sub, string_of};

verus! {

/// UI metadata of one firmware parameter.
#[derive(Debug, Clone)]
pub struct FwParam {
    pub bits: u32,
    pub default: u32,
    pub label: Option<String>,
    pub category: Option<String>,
    pub ty: Option<String>,
    pub options: Option<Vec<String>>,
    pub ui_max: Option<u64>,
    pub unit: Option<String>,
    /// Display order within a category (TypeScript arrays only).
    pub ui_order: Option<i64>,
}

/// The parameter metadata file: per-channel parameters, board-level
/// parameters (each keyed by firmware name) and read-only name patterns.
#[derive(Debug, Clone)]
pub struct FwParams {
    pub params: Vec<(String, FwParam)>,
    pub board_params: Vec<(String, FwParam)>,
    pub readonly_patterns: Vec<String>,
}

/// A register resolved against its metadata, as all emitters use it.
#[derive(Debug, Clone)]
pub struct ResolvedReg {
    /// Firmware name as written in the parameter file (e.g. "POLARITY").
    pub fw_name: String,
    /// snake_case field name (e.g. "polarity").
    pub field: String,
    /// Word offset within a channel page (raw address for a board register).
    pub word_offset: u32,
    pub bits: u32,
    pub default: u32,
    pub label: String,
    pub category: String,
    /// "number" or "enum"
    pub ty: String,
    /// Empty unless `ty` is "enum"
    pub options: Vec<String>,
    pub ui_max: u64,
    pub unit: Option<String>,
    pub ui_order: Option<i64>,
}

/// The largest value a register of `bits` bits holds: `(1 << bits) - 1`,
/// capped at 32 bits.
pub open spec fn bits_max(bits: u32) -> u64 {
    if bits >= 32 { 0xffff_ffff } else { ((1u64 << bits) - 1) as u64 }
}

/// `(1 << bits) - 1`, or `2^32 - 1` from 32 bits on.
pub fn bits_max_exec(bits: u32) -> (r: u64)
    ensures
        r == bits_max(bits),
{
    if bits >= 32 {
        0xffff_ffff
    } else {
        assert(bits < 32 ==> (1u64 << bits) >= 1) by (bit_vector);
        (1u64 << bits) - 1
    }
}

/// The metadata of the first entry named `key`.
pub open spec fn lookup(entries: Seq<(String, FwParam)>, key: Seq<char>) -> Option<FwParam> {
    if exists|i: int| 0 <= i < entries.len() && entries[i].0@ == key {
        let i = choose|i: int|
            0 <= i < entries.len() && entries[i].0@ == key && forall|j: int|
                0 <= j < i ==> #[trigger] entries[j].0@ != key;
        Some(entries[i].1)
    } else {
        None
    }
}

/// Metadata of the first entry named `key`.
pub fn find_param<'a>(entries: &'a Vec<(String, FwParam)>, key: &String) -> (r: Option<&'a FwParam>)
    ensures
        match lookup(entries@, key@) {
            Some(p) => r matches Some(q) && *q == p,
            None => r is None,
        },
{
    let mut i: usize = 0;
    while i < entries.len()
        invariant
            i <= entries@.len(),
            forall|j: int| 0 <= j < i ==> #[trigger] entries@[j].0@ != key@,
        decreases entries.len() - i,
    {
        if entries[i].0 == *key {
            proof {
                let w = choose|w: int|
                    0 <= w < entries@.len() && entries@[w].0@ == key@ && forall|j: int|
                        0 <= j < w ==> #[trigger] entries@[j].0@ != key@;
                if w < i {
                } else if w > i {
                    assert(entries@[i as int].0@ != key@);
                }
            }
            return Some(&entries[i].1);
        }
        i = i + 1;
    }
    None
}

/// The name matches a read-only pattern (contains it).
pub open spec fn is_readonly(patterns: Seq<String>, name: Seq<char>) -> bool {
    exists|i: int| 0 <= i < patterns.len() && contains_sub(name, #[trigger] patterns[i]@)
}

fn matches_readonly(patterns: &Vec<String>, name: &String) -> (r: bool)
    ensures
        r == is_readonly(patterns@, name@),
{
    let cs = chars_of(name.as_str());
    let mut i: usize = 0;
    while i < patterns.len()
        invariant
            i <= patterns@.len(),
            cs@ == name@,
            forall|j: int| 0 <= j < i ==> !contains_sub(name@, #[trigger] patterns@[j]@),
        decreases patterns.len() - i,
    {
        let p = chars_of(patterns[i].as_str());
        if contains(&cs, &p) {
            return true;
        }
        i = i + 1;
    }
    false
}

/// `r` is the resolution of the register named `name` with metadata
/// `meta` at `word_offset`; `default_category` stands in for a missing
/// category.
pub open spec fn resolves(r: ResolvedReg, name: Seq<char>, meta: FwParam, word_offset: u32, default_category: Seq<char>) -> bool {
    &&& r.fw_name@ == name
    &&& r.field@ == str_lower(name)
    &&& r.word_offset == word_offset
    &&& r.bits == meta.bits
    &&& r.default == meta.default
    &&& r.label@ == (match meta.label {
        Some(l) => l@,
        None => name,
    })
    &&& r.category@ == (match meta.category {
        Some(c) => c@,
        None => default_category,
    })
    &&& r.ty@ == (match meta.ty {
        Some(t) => t@,
        None => "number"@,
    })
    &&& r.options@ == (match meta.options {
        Some(o) => o@,
        None => Seq::<String>::empty(),
    })
    &&& r.ui_max == (match meta.ui_max {
        Some(m) => m,
        None => bits_max(meta.bits),
    })
    &&& r.unit == meta.unit
    &&& r.ui_order == meta.ui_order
}

fn clone_opt_string(s: &Option<String>) -> (r: Option<String>)
    ensures
        r == *s,
{
    match s {
        Some(x) => Some(x.clone()),
        None => None,
    }
}

fn clone_strings(v: &Vec<String>) -> (r: Vec<String>)
    ensures
        r@ == v@,
{
    let mut out: Vec<String> = Vec::new();
    let mut i: usize = 0;
    while i < v.len()
        invariant
            i <= v@.len(),
            out@ == v@.take(i as int),
        decreases v.len() - i,
    {
        out.push(v[i].clone());
        assert(v@.take(i + 1) == v@.take(i as int).push(v@[i as int]));
        i = i + 1;
    }
    assert(v@.take(v@.len() as int) == v@);
    out
}

/// Build the resolved form of a register.
fn resolve_one(name: &String, meta: &FwParam, word_offset: u32, default_category: &str) -> (r: ResolvedReg)
    ensures
        resolves(r, name@, *meta, word_offset, default_category@),
{
    let ui_max = match meta.ui_max {
        Some(m) => m,
        None => bits_max_exec(meta.bits),
    };
    let ty = match &meta.ty {
        Some(t) => t.clone(),
        None => String::from_str("number"),
    };
    ResolvedReg {
        field: snake_case(name.as_str()),
        word_offset,
        bits: meta.bits,
        default: meta.default,
        label: match &meta.label {
            Some(l) => l.clone(),
            None => name.clone(),
        },
        category: match &meta.category {
            Some(c) => c.clone(),
            None => String::from_str(default_category),
        },
        ty,
        options: match &meta.options {
            Some(o) => clone_strings(o),
            None => Vec::new(),
        },
        ui_max,
        unit: clone_opt_string(&meta.unit),
        ui_order: meta.ui_order,
        fw_name: name.clone(),
    }
}

/// `x` inserted into `s` after every register whose address is not larger.
pub open spec fn insert_by_address(s: Seq<Register>, x: Register) -> Seq<Register>
    decreases s.len(),
{
    if s.len() == 0 {
        seq![x]
    } else if s.last().address <= x.address {
        s.push(x)
    } else {
        insert_by_address(s.drop_last(), x).push(s.last())
    }
}

/// `s` stably sorted by address.
pub open spec fn sort_by_address(s: Seq<Register>) -> Seq<Register>
    decreases s.len(),
{
    if s.len() == 0 {
        s
    } else {
        insert_by_address(sort_by_address(s.drop_last()), s.last())
    }
}

/// The registers behind a list of references.
pub open spec fn deref_all(v: Seq<&Register>) -> Seq<Register> {
    v.map_values(|x: &Register| *x)
}

/// Inserting at the position after the last register with an address not
/// larger than `x`'s is `insert_by_address`.
proof fn lemma_insert_at(s: Seq<Register>, x: Register, pos: int)
    requires
        0 <= pos <= s.len(),
        forall|j: int| pos <= j < s.len() ==> (#[trigger] s[j]).address > x.address,
        pos > 0 ==> s[pos - 1].address <= x.address,
    ensures
        insert_by_address(s, x) == s.insert(pos, x),
    decreases s.len(),
{
    if s.len() == 0 {
        assert(s.insert(pos, x) =~= seq![x]);
    } else if s.last().address <= x.address {
        if pos < s.len() {
            assert(s[s.len() - 1].address > x.address);
        }
        assert(s.insert(pos, x) =~= s.push(x));
    } else {
        lemma_insert_at(s.drop_last(), x, pos);
        assert(s.insert(pos, x) =~= s.drop_last().insert(pos, x).push(s.last()));
    }
}

/// The references stably sorted by the registers' addresses.
pub fn sort_by_address_exec<'a>(regs: &Vec<&'a Register>) -> (r: Vec<&'a Register>)
    ensures
        deref_all(r@) == sort_by_address(deref_all(regs@)),
{
    let ghost src = deref_all(regs@);
    let mut out: Vec<&'a Register> = Vec::new();
    let mut i: usize = 0;
    while i < regs.len()
        invariant
            i <= regs@.len(),
            src == deref_all(regs@),
            deref_all(out@) == sort_by_address(src.take(i as int)),
        decreases regs.len() - i,
    {
        let x = regs[i];
        let mut pos: usize = out.len();
        while pos > 0 && out[pos - 1].address > x.address
            invariant
                pos <= out@.len(),
                forall|j: int| pos <= j < out@.len() ==> (#[trigger] out@[j]).address > x.address,
            decreases pos,
        {
            pos = pos - 1;
        }
        let ghost before = deref_all(out@);
        proof {
            assert forall|j: int| pos <= j < before.len() implies (#[trigger] before[j]).address > x.address by {
                assert(before[j] == *out@[j]);
            }
            if pos > 0 {
                assert(before[pos - 1] == *out@[pos - 1]);
            }
            lemma_insert_at(before, *x, pos as int);
            assert(src.take(i + 1).drop_last() == src.take(i as int));
            assert(src.take(i + 1).last() == *x);
        }
        out.insert(pos, x);
        proof {
            assert(deref_all(out@) =~= before.insert(pos as int, *x));
        }
        i = i + 1;
    }
    proof {
        assert(src.take(src.len() as int) == src);
    }
    out
}

/// `a - b`, or 0 when `b > a`.
pub open spec fn sub_or_zero(a: u32, b: u32) -> u32 {
    if a >= b { (a - b) as u32 } else { 0 }
}

/// The channel registers that resolve, in order: name, metadata, address.
pub open spec fn channel_entries(regs: Seq<Register>, fw: FwParams) -> Seq<(Seq<char>, FwParam, u32)>
    decreases regs.len(),
{
    if regs.len() == 0 {
        Seq::empty()
    } else {
        let prev = channel_entries(regs.drop_last(), fw);
        let r = regs.last();
        match spec_fw_key(r) {
            None => prev,
            Some(n) => if is_readonly(fw.readonly_patterns@, n) {
                prev
            } else {
                match lookup(fw.params@, n) {
                    None => prev,
                    Some(m) => prev.push((n, m, r.address)),
                }
            },
        }
    }
}

/// The names of the channel registers skipped as read-only, in order.
pub open spec fn readonly_skipped(regs: Seq<Register>, fw: FwParams) -> Seq<Seq<char>>
    decreases regs.len(),
{
    if regs.len() == 0 {
        Seq::empty()
    } else {
        let prev = readonly_skipped(regs.drop_last(), fw);
        match spec_fw_key(regs.last()) {
            Some(n) => if is_readonly(fw.readonly_patterns@, n) { prev.push(n) } else { prev },
            None => prev,
        }
    }
}

/// The names of the channel registers skipped for want of metadata.
pub open spec fn no_meta_skipped(regs: Seq<Register>, fw: FwParams) -> Seq<Seq<char>>
    decreases regs.len(),
{
    if regs.len() == 0 {
        Seq::empty()
    } else {
        let prev = no_meta_skipped(regs.drop_last(), fw);
        match spec_fw_key(regs.last()) {
            Some(n) => if !is_readonly(fw.readonly_patterns@, n) && lookup(fw.params@, n) is None {
                prev.push(n)
            } else {
                prev
            },
            None => prev,
        }
    }
}

/// The strings' characters.
pub open spec fn views(v: Seq<String>) -> Seq<Seq<char>> {
    v.map_values(|s: String| s@)
}

/// Resolve the canonical channel registers (already in address order)
/// against the metadata: a register with a read-only name, or without
/// metadata, is skipped (and reported); every other becomes a field whose
/// word offset is its distance from `page_base` (0 below it).
pub fn resolve_channel_registers(ch0: &Vec<&Register>, fw: &FwParams, page_base: u32) -> (r: (
    Vec<ResolvedReg>,
    Vec<String>,
    Vec<String>,
))
    ensures
        ({
            let e = channel_entries(deref_all(ch0@), *fw);
            &&& r.0@.len() == e.len()
            &&& forall|i: int|
                0 <= i < e.len() ==> resolves(
                    #[trigger] r.0@[i],
                    e[i].0,
                    e[i].1,
                    sub_or_zero(e[i].2, page_base),
                    "other"@,
                )
        }),
        views(r.1@) == readonly_skipped(deref_all(ch0@), *fw),
        views(r.2@) == no_meta_skipped(deref_all(ch0@), *fw),
{
    let ghost src = deref_all(ch0@);
    let mut resolved: Vec<ResolvedReg> = Vec::new();
    let mut readonly: Vec<String> = Vec::new();
    let mut no_meta: Vec<String> = Vec::new();
    let mut i: usize = 0;
    while i < ch0.len()
        invariant
            i <= ch0@.len(),
            src == deref_all(ch0@),
            ({
                let e = channel_entries(src.take(i as int), *fw);
                &&& resolved@.len() == e.len()
                &&& forall|j: int|
                    0 <= j < e.len() ==> resolves(
                        #[trigger] resolved@[j],
                        e[j].0,
                        e[j].1,
                        sub_or_zero(e[j].2, page_base),
                        "other"@,
                    )
            }),
            views(readonly@) == readonly_skipped(src.take(i as int), *fw),
            views(no_meta@) == no_meta_skipped(src.take(i as int), *fw),
        decreases ch0.len() - i,
    {
        let r = ch0[i];
        proof {
            assert(src.take(i + 1).drop_last() == src.take(i as int));
            assert(src.take(i + 1).last() == *r);
        }
        let ghost e_old = channel_entries(src.take(i as int), *fw);
        match r.fw_key() {
            None => {},
            Some(name) => {
                if matches_readonly(&fw.readonly_patterns, &name) {
                    readonly.push(name);
                    assert(views(readonly@) =~= readonly_skipped(src.take(i + 1), *fw));
                } else {
                    match find_param(&fw.params, &name) {
                        None => {
                            no_meta.push(name);
                            assert(views(no_meta@) =~= no_meta_skipped(src.take(i + 1), *fw));
                        },
                        Some(meta) => {
                            let offset: u32 = r.address.saturating_sub(page_base);
                            let res = resolve_one(&name, meta, offset, "other");
                            let ghost before = resolved@;
                            resolved.push(res);
                            proof {
                                let e = channel_entries(src.take(i + 1), *fw);
                                assert(e == e_old.push((name@, *meta, r.address)));
                                assert forall|j: int| 0 <= j < e.len() implies resolves(
                                    #[trigger] resolved@[j],
                                    e[j].0,
                                    e[j].1,
                                    sub_or_zero(e[j].2, page_base),
                                    "other"@,
                                ) by {
                                    if j < e_old.len() {
                                        assert(resolved@[j] == before[j]);
                                    }
                                }
                            }
                        },
                    }
                }
            },
        }
        i = i + 1;
    }
    proof {
        assert(src.take(src.len() as int) == src);
    }
    (resolved, readonly, no_meta)
}

/// The names of the board-level parameters, in order.
pub open spec fn board_keys(fw: FwParams) -> Seq<Seq<char>> {
    fw.board_params@.map_values(|e: (String, FwParam)| e.0@)
}

/// A register name (leading `/` removed) is named by a key: equal to it
/// or containing it.
pub open spec fn key_hits(t: Seq<char>, k: Seq<char>) -> bool {
    t == k || contains_sub(t, k)
}

/// A register's name without leading `/`.
pub open spec fn trimmed_name(r: Register) -> Seq<char> {
    trim_slashes(
        match raw_name(r) {
            Some(x) => x,
            None => Seq::<char>::empty(),
        },
    )
}

/// The parameter name of a board-level register: the first key that names
/// it, else its own name.
pub open spec fn board_name(r: Register, keys: Seq<Seq<char>>) -> Seq<char> {
    let t = trimmed_name(r);
    if exists|i: int| 0 <= i < keys.len() && key_hits(t, keys[i]) {
        keys[choose|i: int|
            0 <= i < keys.len() && key_hits(t, keys[i]) && forall|j: int|
                0 <= j < i ==> !key_hits(t, #[trigger] keys[j])]
    } else {
        t
    }
}

/// The board-level registers, stably sorted by address.
pub open spec fn board_candidates(regs: Seq<Register>, keys: Seq<Seq<char>>) -> Seq<Register> {
    sort_by_address(regs.filter(|r: Register| spec_is_board_level(r, keys)))
}

/// The board registers that resolve, in order: name, metadata, address.
pub open spec fn board_entries(regs: Seq<Register>, fw: FwParams) -> Seq<(Seq<char>, FwParam, u32)>
    decreases regs.len(),
{
    if regs.len() == 0 {
        Seq::empty()
    } else {
        let prev = board_entries(regs.drop_last(), fw);
        let r = regs.last();
        let n = board_name(r, board_keys(fw));
        match lookup(fw.board_params@, n) {
            None => prev,
            Some(m) => prev.push((n, m, r.address)),
        }
    }
}

/// The characters of a register's name without leading `/`.
fn trimmed_chars(r: &Register) -> (t: Vec<char>)
    ensures
        t@ == trimmed_name(*r),
{
    let cs = match &r.path {
        Some(p) => chars_of(p.as_str()),
        None => match &r.name {
            Some(n) => chars_of(n.as_str()),
            None => Vec::new(),
        },
    };
    let mut start: usize = 0;
    assert(cs@.skip(0) == cs@);
    while start < cs.len() && cs[start] == '/'
        invariant
            start <= cs@.len(),
            trim_slashes(cs@.skip(start as int)) == trim_slashes(cs@),
        decreases cs.len() - start,
    {
        assert(cs@.skip(start as int).skip(1) == cs@.skip(start + 1));
        start = start + 1;
    }
    let t = crate::chars::sub_chars(&cs, start, cs.len());
    assert(t@ == cs@.skip(start as int));
    t
}

/// The parameter name of a board-level register.
fn board_name_exec(r: &Register, keys: &Vec<String>) -> (n: String)
    ensures
        n@ == board_name(*r, views(keys@)),
{
    let ghost ks = views(keys@);
    let t = trimmed_chars(r);
    let mut i: usize = 0;
    while i < keys.len()
        invariant
            i <= keys@.len(),
            ks == views(keys@),
            t@ == trimmed_name(*r),
            forall|j: int| 0 <= j < i ==> !key_hits(t@, #[trigger] ks[j]),
        decreases keys.len() - i,
    {
        let k = chars_of(keys[i].as_str());
        assert(ks[i as int] == k@);
        if chars_equal(&t, &k) || contains(&t, &k) {
            proof {
                let w = choose|w: int|
                    0 <= w < ks.len() && key_hits(t@, ks[w]) && forall|j: int|
                        0 <= j < w ==> !key_hits(t@, #[trigger] ks[j]);
                if w < i {
                } else if w > i {
                    assert(!key_hits(t@, ks[i as int]));
                }
            }
            return keys[i].clone();
        }
        i = i + 1;
    }
    string_of(&t, 0, t.len())
}

/// The names of a list of parameter entries, in order.
fn key_names(entries: &Vec<(String, FwParam)>) -> (r: Vec<String>)
    ensures
        views(r@) == entries@.map_values(|e: (String, FwParam)| e.0@),
{
    let mut out: Vec<String> = Vec::new();
    let mut k: usize = 0;
    while k < entries.len()
        invariant
            k <= entries@.len(),
            out@.len() == k,
            forall|m: int| 0 <= m < k ==> (#[trigger] out@[m])@ == entries@[m].0@,
        decreases entries.len() - k,
    {
        let kk = entries[k].0.clone();
        out.push(kk);
        k = k + 1;
    }
    assert(views(out@) =~= entries@.map_values(|e: (String, FwParam)| e.0@));
    out
}

/// Resolve the board-level registers: those a board parameter names
/// (equal or contained, leading `/` ignored), in address order, each under
/// the first key that names it, with its raw address. A register whose
/// name has no metadata is skipped. Nothing when there are no board
/// parameters.
#[verifier::rlimit(40)]
#[verifier::spinoff_prover]
pub fn resolve_board_registers(registers: &Vec<Register>, fw: &FwParams) -> (r: Vec<ResolvedReg>)
    ensures
        board_keys(*fw).len() == 0 ==> r@.len() == 0,
        board_keys(*fw).len() > 0 ==> ({
            let e = board_entries(board_candidates(registers@, board_keys(*fw)), *fw);
            &&& r@.len() == e.len()
            &&& forall|i: int| 0 <= i < e.len() ==> resolves(#[trigger] r@[i], e[i].0, e[i].1, e[i].2, "debug"@)
        }),
{
    let keys = key_names(&fw.board_params);
    if keys.len() == 0 {
        return Vec::new();
    }
    let ghost ks = board_keys(*fw);
    let ghost pred = |r: Register| spec_is_board_level(r, ks);
    let mut picked: Vec<&Register> = Vec::new();
    let mut i: usize = 0;
    while i < registers.len()
        invariant
            i <= registers@.len(),
            ks == board_keys(*fw),
            views(keys@) == ks,
            pred == (|r: Register| spec_is_board_level(r, ks)),
            deref_all(picked@) == registers@.take(i as int).filter(pred),
        decreases registers.len() - i,
    {
        let r = &registers[i];
        let keep = r.is_board_level(&keys);
        proof {
            reveal(Seq::filter);
            assert(registers@.take(i + 1).drop_last() == registers@.take(i as int));
            assert(registers@.take(i + 1).last() == registers@[i as int]);
        }
        if keep {
            picked.push(r);
            assert(deref_all(picked@) =~= registers@.take(i + 1).filter(pred));
        } else {
            assert(deref_all(picked@) =~= registers@.take(i + 1).filter(pred));
        }
        i = i + 1;
    }
    assert(registers@.take(registers@.len() as int) == registers@);
    let sorted = sort_by_address_exec(&picked);
    let ghost src = deref_all(sorted@);
    assert(src == board_candidates(registers@, ks));
    let mut out: Vec<ResolvedReg> = Vec::new();
    let mut j: usize = 0;
    while j < sorted.len()
        invariant
            j <= sorted@.len(),
            src == deref_all(sorted@),
            ks == board_keys(*fw),
            views(keys@) == ks,
            ({
                let e = board_entries(src.take(j as int), *fw);
                &&& out@.len() == e.len()
                &&& forall|m: int| 0 <= m < e.len() ==> resolves(#[trigger] out@[m], e[m].0, e[m].1, e[m].2, "debug"@)
            }),
        decreases sorted.len() - j,
    {
        let r = sorted[j];
        proof {
            assert(src.take(j + 1).drop_last() == src.take(j as int));
            assert(src.take(j + 1).last() == *r);
        }
        let ghost e_old = board_entries(src.take(j as int), *fw);
        let name = board_name_exec(r, &keys);
        match find_param(&fw.board_params, &name) {
            None => {},
            Some(meta) => {
                let res = resolve_one(&name, meta, r.address, "debug");
                let ghost before = out@;
                out.push(res);
                proof {
                    let e = board_entries(src.take(j + 1), *fw);
                    assert(e == e_old.push((name@, *meta, r.address)));
                    assert forall|m: int| 0 <= m < e.len() implies resolves(#[trigger] out@[m], e[m].0, e[m].1, e[m].2, "debug"@) by {
                        if m < e_old.len() {
                            assert(out@[m] == before[m]);
                        }
                    }
                }
            },
        }
        j = j + 1;
    }
    assert(src.take(src.len() as int) == src);
    out
}

} // verus!
