//! The paper mesh-gradient view's shader work: relocating `@group(N)` indices and finding a
//! stage's entry-point name in the WGSL text, grouping uniform blocks into bind groups, and
//! reading each stage's uniform blocks through the WGSL front end and filling them by member
//! name.

use vstd::prelude::*;
use crate::text::{
    chars_of, dec, find, find_spec, is_digit, lemma_dec_digits, lemma_first_at, lemma_first_from,
    lemma_parse_dec, occurs_at, parse_u32, parse_u32_spec, push_all, push_u64, slice_chars,
    push_str, string_from_chars, trim, trim_spec,
};
use crate::skin::same_text;
use crate::shader::{
    front_end, front_end_outcome, globals_view, opt_text, wgsl_front_end, FrontEndError,
    FrontEndFailure, ShaderGlobal, ShaderGlobalView,
};

verus! {

/// The text `@group(`.
pub open spec fn group_tag() -> Seq<char> {
    seq!['@', 'g', 'r', 'o', 'u', 'p', '(']
}

/// Index of the first `)` in `after`, or 0 when there is none.
pub open spec fn close_index(after: Seq<char>) -> int {
    match find_spec(after, seq![')']) {
        Some(e) => e,
        None => 0,
    }
}

/// The group number written right after a `@group(` tag: the text before the first `)`,
/// trimmed and parsed as a `u32`; 0 when it does not parse.
pub open spec fn group_number(after: Seq<char>) -> nat {
    match parse_u32_spec(trim_spec(after.take(close_index(after)))) {
        Some(n) => n as nat,
        None => 0,
    }
}

/// A found index lies within the text.
pub proof fn lemma_find_bounds(s: Seq<char>, pat: Seq<char>)
    ensures
        find_spec(s, pat) matches Some(i) ==> 0 <= i && i + pat.len() <= s.len() && occurs_at(
            s,
            pat,
            i,
        ),
{
    lemma_first_from(s, pat, 0);
}

/// `rest` with every `@group(N)` renumbered to `N + offset`.
pub open spec fn shift_rest(rest: Seq<char>, offset: nat) -> Seq<char>
    decreases rest.len(),
{
    match find_spec(rest, group_tag()) {
        None => rest,
        Some(pos) => {
            proof {
                lemma_find_bounds(rest, group_tag());
                lemma_find_bounds(rest.skip(pos + 7), seq![')']);
            }
            let after = rest.skip(pos + 7);
            rest.take(pos + 7) + dec(group_number(after) + offset) + shift_rest(
                after.skip(close_index(after)),
                offset,
            )
        },
    }
}

/// True when every renumbered group index of `rest` fits in a `u32`.
pub open spec fn shift_fits(rest: Seq<char>, offset: nat) -> bool
    decreases rest.len(),
{
    match find_spec(rest, group_tag()) {
        None => true,
        Some(pos) => {
            proof {
                lemma_find_bounds(rest, group_tag());
                lemma_find_bounds(rest.skip(pos + 7), seq![')']);
            }
            let after = rest.skip(pos + 7);
            group_number(after) + offset <= u32::MAX && shift_fits(
                after.skip(close_index(after)),
                offset,
            )
        },
    }
}

/// What [`shift_groups`] returns: the text unchanged for a zero offset, else every group
/// index bumped by `offset`.
pub open spec fn shift_groups_spec(wgsl: Seq<char>, offset: nat) -> Seq<char> {
    if offset == 0 {
        wgsl
    } else {
        shift_rest(wgsl, offset)
    }
}

/// True when every `@group(` tag of `rest` is closed by a `)` somewhere after it.
pub open spec fn groups_closed(rest: Seq<char>) -> bool
    decreases rest.len(),
{
    match find_spec(rest, group_tag()) {
        None => true,
        Some(pos) => {
            proof {
                lemma_find_bounds(rest, group_tag());
                lemma_find_bounds(rest.skip(pos + 7), seq![')']);
            }
            let after = rest.skip(pos + 7);
            find_spec(after, seq![')']) is Some && groups_closed(after.skip(close_index(after)))
        },
    }
}

/// The group indices the `@group(` tags of `rest` carry, in order, as a reader of the text
/// sees them.
pub open spec fn group_indices(rest: Seq<char>) -> Seq<nat>
    decreases rest.len(),
{
    match find_spec(rest, group_tag()) {
        None => Seq::empty(),
        Some(pos) => {
            proof {
                lemma_find_bounds(rest, group_tag());
                lemma_find_bounds(rest.skip(pos + 7), seq![')']);
            }
            let after = rest.skip(pos + 7);
            seq![group_number(after)] + group_indices(after.skip(close_index(after)))
        },
    }
}

/// Text kept up to and including the first `@group(` tag keeps that tag first, whatever follows.
proof fn lemma_prefix_keeps_first_tag(rest: Seq<char>, pos: int, tail: Seq<char>)
    requires
        find_spec(rest, group_tag()) == Some(pos),
    ensures
        find_spec(rest.take(pos + 7) + tail, group_tag()) == Some(pos),
{
    lemma_first_from(rest, group_tag(), 0);
    let s2 = rest.take(pos + 7) + tail;
    assert(occurs_at(rest, group_tag(), pos));
    assert forall|j: int| 0 <= j < pos implies !occurs_at(s2, group_tag(), j) by {
        assert(!occurs_at(rest, group_tag(), j));
        assert(s2.subrange(j, j + 7) =~= rest.subrange(j, j + 7));
    }
    assert(s2.subrange(pos, pos + 7) =~= rest.subrange(pos, pos + 7));
    lemma_first_at(s2, group_tag(), 0, pos);
}

/// In decimal digits followed by `)`, the first `)` is the one right after the digits.
proof fn lemma_digits_then_close(k: nat, y: Seq<char>)
    requires
        y.len() > 0,
        y[0] == ')',
    ensures
        find_spec(dec(k) + y, seq![')']) == Some(dec(k).len() as int),
{
    lemma_dec_digits(k);
    let s = dec(k) + y;
    let d = dec(k).len() as int;
    assert forall|j: int| 0 <= j < d implies !occurs_at(s, seq![')'], j) by {
        assert(s[j] == dec(k)[j]);
        assert(is_digit(dec(k)[j]));
        if occurs_at(s, seq![')'], j) {
            assert(s.subrange(j, j + 1)[0] == s[j]);
        }
    }
    assert(s.subrange(d, d + 1) =~= seq![')']);
    lemma_first_at(s, seq![')'], 0, d);
}

/// Renumbering never touches the first character.
proof fn lemma_shift_rest_starts_alike(z: Seq<char>, offset: nat)
    requires
        z.len() > 0,
    ensures
        shift_rest(z, offset).len() > 0,
        shift_rest(z, offset)[0] == z[0],
{
    lemma_find_bounds(z, group_tag());
    match find_spec(z, group_tag()) {
        None => {},
        Some(pos) => {
            lemma_find_bounds(z.skip(pos + 7), seq![')']);
        },
    }
}

/// Renumbering adds `offset` to every group index a reader of the text sees, and keeps every
/// tag closed: the group indices of the result are those of the input, each plus `offset`.
pub proof fn lemma_shift_renumbers_groups(w: Seq<char>, offset: nat)
    requires
        groups_closed(w),
        shift_fits(w, offset),
    ensures
        groups_closed(shift_rest(w, offset)),
        group_indices(shift_rest(w, offset)) == group_indices(w).map_values(|g: nat| g + offset),
    decreases w.len(),
{
    lemma_find_bounds(w, group_tag());
    match find_spec(w, group_tag()) {
        None => {
            assert(group_indices(w).map_values(|g: nat| g + offset) =~= Seq::<nat>::empty());
        },
        Some(pos) => {
            let after = w.skip(pos + 7);
            lemma_find_bounds(after, seq![')']);
            let c = close_index(after);
            let n = group_number(after);
            let tail = after.skip(c);
            assert(after.subrange(c, c + 1)[0] == after[c]);
            assert(tail[0] == ')');
            lemma_shift_renumbers_groups(tail, offset);
            lemma_shift_rest_starts_alike(tail, offset);
            let st = shift_rest(tail, offset);
            let mid = dec(n + offset) + st;
            let out = shift_rest(w, offset);
            assert(out =~= w.take(pos + 7) + mid);
            lemma_prefix_keeps_first_tag(w, pos, mid);
            assert(out.skip(pos + 7) =~= mid);
            lemma_digits_then_close(n + offset, st);
            let d = dec(n + offset).len() as int;
            assert(close_index(mid) == d);
            assert(mid.take(d) =~= dec(n + offset));
            lemma_parse_dec(n + offset);
            assert(group_number(mid) == n + offset);
            assert(mid.skip(d) =~= st);
            assert(group_indices(out) == seq![n + offset] + group_indices(st));
            assert(group_indices(w) == seq![n] + group_indices(tail));
            assert(group_indices(out) =~= group_indices(w).map_values(|g: nat| g + offset));
        },
    }
}

/// Moving a fragment stage's groups up by the first group free above the vertex stage's (what
/// [`next_free_group`] returns) puts every fragment group above every vertex group, so the two
/// stages never share a bind group.
pub proof fn lemma_relocated_groups_clear(frag: Seq<char>, vert: Seq<u32>, offset: u32)
    requires
        groups_closed(frag),
        offset == 0 || shift_fits(frag, offset as nat),
        forall|i: int| 0 <= i < vert.len() ==> vert[i] < offset,
    ensures
        forall|k: int, i: int|
            0 <= k < group_indices(shift_groups_spec(frag, offset as nat)).len() && 0 <= i
                < vert.len() ==> vert[i] < #[trigger] group_indices(
                shift_groups_spec(frag, offset as nat),
            )[k] && #[trigger] vert[i] < offset,
{
    if offset > 0 {
        lemma_shift_renumbers_groups(frag, offset as nat);
    }
}

fn group_tag_chars() -> (v: Vec<char>)
    ensures
        v@ == group_tag(),
{
    let v = vec!['@', 'g', 'r', 'o', 'u', 'p', '('];
    assert(v@ =~= group_tag());
    v
}

/// Renumbers every `@group(N)` in `wgsl` to `N + offset`, or returns `None` when one of the new
/// indices would not fit in a `u32`.
pub fn try_shift_groups(wgsl: &str, offset: u32) -> (out: Option<String>)
    ensures
        out is Some <==> (offset == 0 || shift_fits(wgsl@, offset as nat)),
        out matches Some(s) ==> s@ == shift_groups_spec(wgsl@, offset as nat),
{
    if offset == 0 {
        return Some(wgsl.to_owned());
    }
    let tag = group_tag_chars();
    let close = vec![')'];
    assert(close@ =~= seq![')']);
    let mut rest = chars_of(wgsl);
    let mut out: Vec<char> = Vec::new();
    loop
        invariant
            tag@ == group_tag(),
            close@ == seq![')'],
            offset > 0,
            out@ + shift_rest(rest@, offset as nat) == shift_rest(wgsl@, offset as nat),
            shift_fits(wgsl@, offset as nat) == shift_fits(rest@, offset as nat),
        decreases rest.len(),
    {
        proof {
            lemma_find_bounds(rest@, group_tag());
        }
        match find(&rest, &tag) {
            None => {
                let ghost before = out@;
                push_all(&mut out, &rest);
                assert(out@ == shift_rest(wgsl@, offset as nat));
                return Some(string_from_chars(&out));
            },
            Some(pos) => {
                let head = slice_chars(&rest, 0, pos + 7);
                let after = slice_chars(&rest, pos + 7, rest.len());
                assert(after@ =~= rest@.skip(pos + 7));
                assert(head@ =~= rest@.take(pos + 7));
                proof {
                    lemma_find_bounds(after@, seq![')']);
                }
                let end: usize = match find(&after, &close) {
                    Some(e) => e,
                    None => 0,
                };
                assert(end as int == close_index(after@));
                let inner = slice_chars(&after, 0, end);
                assert(inner@ =~= after@.take(end as int));
                let trimmed = trim(&inner);
                let num: u32 = match parse_u32(&trimmed) {
                    Some(n) => n,
                    None => 0,
                };
                assert(num as nat == group_number(after@));
                let next = slice_chars(&after, end, after.len());
                assert(next@ =~= after@.skip(end as int));
                if num > u32::MAX - offset {
                    return None;
                }
                let ghost old_out = out@;
                push_all(&mut out, &head);
                push_u64(&mut out, (num + offset) as u64);
                assert(out@ + shift_rest(next@, offset as nat) =~= old_out + shift_rest(
                    rest@,
                    offset as nat,
                ));
                rest = next;
            },
        }
    }
}

/// Bumps every `@group(N)` in `wgsl` by `offset` (leaves `@binding` alone).
pub fn shift_groups(wgsl: &str, offset: u32) -> (out: String)
    requires
        offset == 0 || shift_fits(wgsl@, offset as nat),
    ensures
        out@ == shift_groups_spec(wgsl@, offset as nat),
{
    match try_shift_groups(wgsl, offset) {
        Some(s) => s,
        None => {
            assert(false);
            String::new()
        },
    }
}

/// Whether `char::is_alphanumeric` holds of `c` (Unicode `Alphabetic` or `Numeric`).
pub uninterp spec fn unicode_alphanumeric(c: char) -> bool;

/// Asks std's `char::is_alphanumeric` about `c`; the answer is named [`unicode_alphanumeric`].
#[verifier::external_body]
fn is_alphanumeric(c: char) -> (b: bool)
    ensures
        b == unicode_alphanumeric(c),
{
    c.is_alphanumeric()
}

/// True for the characters an entry-point identifier is read from.
pub open spec fn ident_char(c: char) -> bool {
    unicode_alphanumeric(c) || c == '_'
}

/// The longest prefix of `s` made of identifier characters.
pub open spec fn ident_prefix(s: Seq<char>) -> Seq<char>
    decreases s.len(),
{
    if s.len() > 0 && ident_char(s[0]) {
        seq![s[0]] + ident_prefix(s.drop_first())
    } else {
        Seq::empty()
    }
}

/// The text `fn `.
pub open spec fn fn_kw() -> Seq<char> {
    seq!['f', 'n', ' ']
}

/// What [`entry_point_name`] returns: the identifier after the first `fn ` that follows the first
/// occurrence of `stage_attr`, when it is non-empty.
pub open spec fn entry_point_name_spec(wgsl: Seq<char>, stage_attr: Seq<char>) -> Option<
    Seq<char>,
> {
    match find_spec(wgsl, stage_attr) {
        None => None,
        Some(idx) => {
            let after = wgsl.skip(idx + stage_attr.len());
            match find_spec(after, fn_kw()) {
                None => None,
                Some(f) => {
                    let name = ident_prefix(after.skip(f + 3));
                    if name.len() == 0 {
                        None
                    } else {
                        Some(name)
                    }
                },
            }
        },
    }
}

/// Entry-point fn name after a stage attribute, e.g. `@vertex fn main_1(` gives `main_1`.
pub fn entry_point_name(wgsl: &str, stage_attr: &str) -> (r: Option<String>)
    ensures
        r matches Some(s) ==> entry_point_name_spec(wgsl@, stage_attr@) == Some(s@),
        r is None ==> entry_point_name_spec(wgsl@, stage_attr@) is None,
{
    let w = chars_of(wgsl);
    let attr = chars_of(stage_attr);
    proof {
        lemma_find_bounds(w@, attr@);
    }
    let idx = match find(&w, &attr) {
        Some(i) => i,
        None => {
            return None;
        },
    };
    assert(find_spec(w@, attr@) == Some(idx as int));
    let alen = attr.len();
    let wlen = w.len();
    assert(idx + alen <= wlen);
    let start = idx + alen;
    let after = slice_chars(&w, start, wlen);
    assert(after@ =~= w@.skip(idx + attr.len()));
    let kw = vec!['f', 'n', ' '];
    assert(kw@ =~= fn_kw());
    proof {
        lemma_find_bounds(after@, fn_kw());
    }
    let f = match find(&after, &kw) {
        Some(f) => f,
        None => {
            return None;
        },
    };
    let mut name: Vec<char> = Vec::new();
    let mut i = f + 3;
    assert(after@.skip(i as int) =~= after@.skip(f + 3));
    while i < after.len() && (is_alphanumeric(after[i]) || after[i] == '_')
        invariant
            f + 3 <= i <= after.len(),
            name@ + ident_prefix(after@.skip(i as int)) == ident_prefix(after@.skip(f + 3)),
        decreases after.len() - i,
    {
        let ghost before = name@;
        name.push(after[i]);
        assert(after@.skip(i as int).drop_first() =~= after@.skip(i + 1));
        assert(name@ + ident_prefix(after@.skip(i + 1)) =~= before + ident_prefix(
            after@.skip(i as int),
        ));
        i += 1;
    }
    assert(ident_prefix(after@.skip(i as int)) =~= Seq::<char>::empty());
    assert(name@ =~= ident_prefix(after@.skip(f + 3)));
    if name.len() == 0 {
        None
    } else {
        Some(string_from_chars(&name))
    }
}

/// The first bind group index above every group in `groups` (0 when there are none): where the
/// fragment stage's uniform blocks are moved so they do not collide with the vertex stage's.
pub fn next_free_group(groups: &Vec<u32>) -> (g: u32)
    requires
        forall|i: int| 0 <= i < groups.len() ==> groups@[i] < u32::MAX,
    ensures
        groups.len() == 0 ==> g == 0,
        groups.len() > 0 ==> exists|i: int| 0 <= i < groups.len() && g == groups@[i] + 1,
        forall|i: int| 0 <= i < groups.len() ==> groups@[i] < g,
{
    let mut best: Option<u32> = None;
    let mut i: usize = 0;
    while i < groups.len()
        invariant
            i <= groups.len(),
            forall|j: int| 0 <= j < groups.len() ==> groups@[j] < u32::MAX,
            i == 0 <==> best is None,
            best matches Some(b) ==> (exists|j: int| 0 <= j < i && b == groups@[j]) && forall|
                j: int,
            |
                0 <= j < i ==> groups@[j] <= b,
        decreases groups.len() - i,
    {
        let v = groups[i];
        best = match best {
            None => Some(v),
            Some(b) => if v > b {
                Some(v)
            } else {
                Some(b)
            },
        };
        i += 1;
    }
    match best {
        Some(b) => b + 1,
        None => 0,
    }
}

/// The positions of `groups`, in order, whose bind group is `g`.
pub open spec fn members(groups: Seq<u32>, g: u32) -> Seq<usize>
    decreases groups.len(),
{
    if groups.len() == 0 {
        Seq::empty()
    } else {
        let n = groups.len() - 1;
        members(groups.drop_last(), g) + if groups[n] == g {
            seq![n as usize]
        } else {
            Seq::empty()
        }
    }
}

proof fn lemma_members_absent(groups: Seq<u32>, g: u32)
    requires
        forall|j: int| 0 <= j < groups.len() ==> groups[j] != g,
    ensures
        members(groups, g) == Seq::<usize>::empty(),
    decreases groups.len(),
{
    if groups.len() > 0 {
        lemma_members_absent(groups.drop_last(), g);
    }
}

/// True when `plan` lays out the bind groups of uniform blocks whose groups are `groups`: one
/// entry per group in use, in ascending group order, each listing (in order) every block that
/// binds into it.
pub open spec fn plan_matches(plan: Seq<(u32, Vec<usize>)>, groups: Seq<u32>) -> bool {
    &&& forall|a: int, b: int| 0 <= a < b < plan.len() ==> plan[a].0 < plan[b].0
    &&& forall|a: int| 0 <= a < plan.len() ==> #[trigger] plan[a].1@ == members(groups, plan[a].0)
    &&& forall|a: int| 0 <= a < plan.len() ==> #[trigger] plan[a].1@.len() > 0
    &&& forall|j: int|
        #![trigger groups[j]]
        0 <= j < groups.len() ==> exists|a: int|
            #![trigger plan[a]]
            0 <= a < plan.len() && plan[a].0 == groups[j]
}

/// Groups uniform blocks by bind group: `groups[i]` is block `i`'s group; the plan has one entry
/// per group in use, in ascending group order, listing the blocks of that group in order.
pub fn plan_bind_groups(groups: &Vec<u32>) -> (plan: Vec<(u32, Vec<usize>)>)
    ensures
        plan_matches(plan@, groups@),
{
    let mut plan: Vec<(u32, Vec<usize>)> = Vec::new();
    let mut i: usize = 0;
    while i < groups.len()
        invariant
            i <= groups.len(),
            plan_matches(plan@, groups@.take(i as int)),
        decreases groups.len() - i,
    {
        let g = groups[i];
        let ghost before = groups@.take(i as int);
        let ghost after = groups@.take(i + 1);
        assert(after.drop_last() =~= before);
        assert(after[i as int] == g);
        let mut p: usize = 0;
        while p < plan.len() && plan[p].0 < g
            invariant
                p <= plan.len(),
                forall|a: int| 0 <= a < p ==> plan@[a].0 < g,
            decreases plan.len() - p,
        {
            p += 1;
        }
        let ghost old_plan = plan@;
        if p < plan.len() && plan[p].0 == g {
            let (gg, mut mem) = plan.remove(p);
            let ghost old_mem = mem@;
            assert(old_mem == members(before, g));
            mem.push(i);
            plan.insert(p, (gg, mem));
            assert(plan@ =~= old_plan.update(p as int, (gg, mem)));
            assert(mem@ =~= members(after, g));
            assert forall|a: int| 0 <= a < plan@.len() implies #[trigger] plan@[a].1@ == members(
                after,
                plan@[a].0,
            ) by {
                if a != p {
                    if a < p {
                        assert(old_plan[a].0 < old_plan[p as int].0);
                    } else {
                        assert(old_plan[p as int].0 < old_plan[a].0);
                    }
                    assert(members(after, plan@[a].0) =~= members(before, plan@[a].0));
                }
            }
            assert forall|j: int| #![trigger after[j]] 0 <= j < after.len() implies exists|a: int|
                #![trigger plan@[a]]
                0 <= a < plan@.len() && plan@[a].0 == after[j] by {
                if j < i {
                    assert(after[j] == before[j]);
                    let a = choose|a: int| #![trigger old_plan[a]] 0 <= a < old_plan.len() && old_plan[a].0 == before[j];
                    assert(plan@[a].0 == old_plan[a].0);
                } else {
                    assert(plan@[p as int].0 == g);
                }
            }
        } else {
            proof {
                assert forall|j: int| 0 <= j < before.len() implies before[j] != g by {
                    let a = choose|a: int| #![trigger old_plan[a]] 0 <= a < old_plan.len() && old_plan[a].0 == before[j];
                    if before[j] == g {
                        if a < p {
                        } else {
                            assert(a >= p && p < old_plan.len());
                            if a > p {
                                assert(old_plan[p as int].0 < old_plan[a].0);
                            }
                        }
                    }
                }
                lemma_members_absent(before, g);
            }
            let mut mem: Vec<usize> = Vec::new();
            mem.push(i);
            plan.insert(p, (g, mem));
            assert(mem@ =~= members(after, g));
            assert forall|a: int, b: int| 0 <= a < b < plan@.len() implies plan@[a].0 < plan@[b].0 by {
                if p < old_plan.len() {
                    assert(old_plan[p as int].0 > g);
                }
                if b > p && b - 1 > p {
                    assert(old_plan[p as int].0 <= old_plan[b - 1].0);
                }
            }
            assert forall|a: int| 0 <= a < plan@.len() implies #[trigger] plan@[a].1@ == members(
                after,
                plan@[a].0,
            ) by {
                if a != p {
                    let oa = if a < p { a } else { a - 1 };
                    assert(plan@[a] == old_plan[oa]);
                    if oa >= p {
                        assert(old_plan[p as int].0 > g);
                        if oa > p {
                            assert(old_plan[p as int].0 < old_plan[oa].0);
                        }
                    }
                    assert(members(after, plan@[a].0) =~= members(before, plan@[a].0));
                }
            }
            assert forall|a: int| 0 <= a < plan@.len() implies #[trigger] plan@[a].1@.len() > 0 by {
                if a != p {
                    let oa = if a < p { a } else { a - 1 };
                    assert(plan@[a] == old_plan[oa]);
                }
            }
            assert forall|j: int| #![trigger after[j]] 0 <= j < after.len() implies exists|a: int|
                #![trigger plan@[a]]
                0 <= a < plan@.len() && plan@[a].0 == after[j] by {
                if j < i {
                    assert(after[j] == before[j]);
                    let a = choose|a: int| #![trigger old_plan[a]] 0 <= a < old_plan.len() && old_plan[a].0 == before[j];
                    if a < p {
                        assert(plan@[a] == old_plan[a]);
                    } else {
                        assert(plan@[a + 1] == old_plan[a]);
                    }
                } else {
                    assert(plan@[p as int].0 == g);
                }
            }
        }
        i += 1;
    }
    assert(groups@.take(groups.len() as int) =~= groups@);
    plan
}

proof fn lemma_members_hold(groups: Seq<u32>, g: u32, i: int)
    requires
        0 <= i < groups.len(),
        groups.len() <= usize::MAX,
    ensures
        members(groups, g).contains(i as usize) <==> groups[i] == g,
    decreases groups.len(),
{
    let n = groups.len() - 1;
    let prev = members(groups.drop_last(), g);
    let tail = if groups[n] == g {
        seq![n as usize]
    } else {
        Seq::<usize>::empty()
    };
    let m = members(groups, g);
    assert(m == prev + tail);
    if i < n {
        lemma_members_hold(groups.drop_last(), g, i);
        assert(groups.drop_last()[i] == groups[i]);
        if m.contains(i as usize) {
            let k = choose|k: int| 0 <= k < m.len() && m[k] == i as usize;
            if k >= prev.len() {
                assert(tail[k - prev.len()] == i as usize);
                assert(n as usize == i as usize);
            } else {
                assert(prev[k] == i as usize);
            }
        }
        if groups[i] == g {
            let k = choose|k: int| 0 <= k < prev.len() && prev[k] == i as usize;
            assert(m[k] == i as usize);
        }
    } else {
        if groups[i] == g {
            assert(m[m.len() - 1] == i as usize);
        } else {
            lemma_members_below(groups.drop_last(), g);
            if m.contains(i as usize) {
                let k = choose|k: int| 0 <= k < m.len() && m[k] == i as usize;
                assert(prev[k] < n);
            }
        }
    }
}

proof fn lemma_members_below(groups: Seq<u32>, g: u32)
    requires
        groups.len() <= usize::MAX,
    ensures
        forall|k: int| 0 <= k < members(groups, g).len() ==> #[trigger] members(groups, g)[k] < groups.len(),
    decreases groups.len(),
{
    if groups.len() > 0 {
        lemma_members_below(groups.drop_last(), g);
        let n = groups.len() - 1;
        let prev = members(groups.drop_last(), g);
        let tail = if groups[n] == g {
            seq![n as usize]
        } else {
            Seq::<usize>::empty()
        };
        assert(members(groups, g) == prev + tail);
        assert forall|k: int| 0 <= k < members(groups, g).len() implies #[trigger] members(groups, g)[k] < groups.len() by {
            if k < prev.len() {
                assert(members(groups, g)[k] == prev[k]);
            }
        }
    }
}

/// A bind-group plan binds every uniform block exactly once: block `i` is listed by the entry of
/// its own group and by no other.
pub proof fn lemma_plan_binds_each_block_once(plan: Seq<(u32, Vec<usize>)>, groups: Seq<u32>, i: int)
    requires
        plan_matches(plan, groups),
        0 <= i < groups.len(),
        groups.len() <= usize::MAX,
    ensures
        exists|a: int| 0 <= a < plan.len() && plan[a].0 == groups[i] && #[trigger] plan[a].1@.contains(
            i as usize,
        ),
        forall|a: int|
            0 <= a < plan.len() && #[trigger] plan[a].1@.contains(i as usize) ==> plan[a].0
                == groups[i],
{
    assert(groups[i] == groups[i]);
    let a = choose|a: int| #![trigger plan[a]] 0 <= a < plan.len() && plan[a].0 == groups[i];
    lemma_members_hold(groups, groups[i], i);
    assert(plan[a].1@ == members(groups, plan[a].0));
    assert forall|b: int| 0 <= b < plan.len() && #[trigger] plan[b].1@.contains(i as usize) implies plan[b].0
        == groups[i] by {
        assert(plan[b].1@ == members(groups, plan[b].0));
        lemma_members_hold(groups, plan[b].0, i);
    }
}

/// The bytes of a uniform block after writing `lanes` (4 bytes each) from byte `off` on: lane `i`
/// lands at `off + 4 * i` when it fits entirely inside the block, and is skipped otherwise.
pub open spec fn lane_written(data: Seq<u8>, off: int, lanes: Seq<[u8; 4]>, j: int) -> u8 {
    let i = (j - off) / 4;
    if off <= j && 0 <= i < lanes.len() && off + 4 * i + 4 <= data.len() {
        lanes[i]@[(j - off) % 4]
    } else {
        data[j]
    }
}

/// Writes 4-byte lanes into a uniform block from byte `off` on, lane `i` at `off + 4 * i`,
/// skipping any lane that would run past the end of the block.
pub fn write_lanes(data: &mut Vec<u8>, off: usize, lanes: &Vec<[u8; 4]>)
    ensures
        final(data).len() == old(data).len(),
        forall|j: int|
            0 <= j < final(data).len() ==> #[trigger] final(data)@[j] == lane_written(
                old(data)@,
                off as int,
                lanes@,
                j,
            ),
{
    if off > data.len() {
        return;
    }
    let mut i: usize = 0;
    let mut s: usize = off;
    while i < lanes.len() && data.len() - s >= 4
        invariant
            i <= lanes.len(),
            s == off + 4 * i,
            s <= data.len(),
            data.len() == old(data).len(),
            forall|j: int|
                0 <= j < data.len() ==> #[trigger] data@[j] == (if off <= j && (j - off) / 4 < i {
                    lane_written(old(data)@, off as int, lanes@, j)
                } else {
                    old(data)@[j]
                }),
        decreases lanes.len() - i,
    {
        let lane = lanes[i];
        data.set(s, lane[0]);
        data.set(s + 1, lane[1]);
        data.set(s + 2, lane[2]);
        data.set(s + 3, lane[3]);
        proof {
            assert forall|j: int| 0 <= j < data.len() implies #[trigger] data@[j] == (if off <= j
                && (j - off) / 4 < i + 1 {
                lane_written(old(data)@, off as int, lanes@, j)
            } else {
                old(data)@[j]
            }) by {
                if off <= j && (j - off) / 4 == i {
                    assert(s <= j < s + 4);
                    assert((j - off) % 4 == j - s);
                } else if s <= j < s + 4 {
                    assert((j - off) / 4 == i);
                }
            }
        }
        i += 1;
        s += 4;
    }
    assert forall|j: int| 0 <= j < data.len() implies #[trigger] data@[j] == lane_written(
        old(data)@,
        off as int,
        lanes@,
        j,
    ) by {
        if off <= j && (j - off) / 4 >= i {
            assert(off + 4 * ((j - off) / 4) + 4 >= s + 4);
        }
    }
}

/// A uniform block of a shader stage: where it binds, how many bytes it spans, and its members'
/// names and byte offsets (a block whose type is not a struct is one member at offset 0).
#[derive(Clone, Debug)]
pub struct UniformBlock {
    /// Its `@group` index.
    pub group: u32,
    /// Its `@binding` index.
    pub binding: u32,
    /// Its size in bytes.
    pub size: usize,
    /// Each member's name and byte offset, in declaration order.
    pub members: Vec<(String, u32)>,
}

/// A [`UniformBlock`] as plain values.
pub struct UniformBlockView {
    pub group: u32,
    pub binding: u32,
    pub size: usize,
    pub members: Seq<(Seq<char>, u32)>,
}

/// Member names and offsets as plain values.
pub open spec fn members_view(ms: Seq<(String, u32)>) -> Seq<(Seq<char>, u32)> {
    ms.map_values(|m: (String, u32)| (m.0@, m.1))
}

impl View for UniformBlock {
    type V = UniformBlockView;

    open spec fn view(&self) -> UniformBlockView {
        UniformBlockView {
            group: self.group,
            binding: self.binding,
            size: self.size,
            members: members_view(self.members@),
        }
    }
}

/// Uniform blocks as plain values.
pub open spec fn blocks_view(bs: Seq<UniformBlock>) -> Seq<UniformBlockView> {
    bs.map_values(|b: UniformBlock| b@)
}

/// A name, or the empty text where there is none.
pub open spec fn text_or_empty(o: Option<Seq<char>>) -> Seq<char> {
    match o {
        Some(t) => t,
        None => Seq::empty(),
    }
}

/// The uniform block a bound uniform global declares: a struct's members under their names (an
/// unnamed member under the empty name), or else the global itself as one member at offset 0.
pub open spec fn block_of(g: ShaderGlobalView) -> UniformBlockView {
    UniformBlockView {
        group: g.binding.unwrap().0,
        binding: g.binding.unwrap().1,
        size: g.size as usize,
        members: match g.members {
            Some(ms) => ms.map_values(|m: (Option<Seq<char>>, u32)| (text_or_empty(m.0), m.1)),
            None => seq![(text_or_empty(g.name), 0u32)],
        },
    }
}

/// The uniform blocks of a module: one per global in the uniform address space that has a
/// binding, in declaration order.
pub open spec fn uniform_blocks_spec(gs: Seq<ShaderGlobalView>) -> Seq<UniformBlockView>
    decreases gs.len(),
{
    if gs.len() == 0 {
        Seq::empty()
    } else {
        let prev = uniform_blocks_spec(gs.drop_last());
        let g = gs.last();
        if g.uniform && g.binding is Some {
            prev.push(block_of(g))
        } else {
            prev
        }
    }
}

/// What [`uniform_blocks`] reports for a front-end outcome.
pub open spec fn blocks_outcome(r: Result<Seq<ShaderGlobalView>, FrontEndFailure>) -> Result<
    Seq<UniformBlockView>,
    Seq<char>,
> {
    match r {
        Ok(gs) => Ok(uniform_blocks_spec(gs)),
        Err(FrontEndFailure::Parse(_, d)) => Err("wgsl parse: "@ + d),
        Err(FrontEndFailure::Layout(m)) => Err("layout: "@ + m),
    }
}

/// The text `head` followed by `tail`.
fn prefixed(head: &str, tail: &String) -> (s: String)
    ensures
        s@ == head@ + tail@,
{
    let mut out: Vec<char> = Vec::new();
    push_str(&mut out, head);
    push_str(&mut out, tail.as_str());
    string_from_chars(&out)
}

/// A name, or the empty string where there is none.
fn name_or_empty(o: &Option<String>) -> (s: String)
    ensures
        s@ == text_or_empty(opt_text(*o)),
{
    match o {
        Some(n) => n.clone(),
        None => String::new(),
    }
}

/// The uniform block a bound global declares.
fn block_from(g: &ShaderGlobal, group: u32, binding: u32) -> (b: UniformBlock)
    requires
        g.2 == Some((group, binding)),
    ensures
        b@ == block_of(g@),
{
    let members: Vec<(String, u32)> = match &g.4 {
        Some(ms) => {
            let mut out: Vec<(String, u32)> = Vec::new();
            let mut k: usize = 0;
            while k < ms.len()
                invariant
                    k <= ms.len(),
                    members_view(out@) =~= ms@.take(k as int).map_values(
                        |m: (Option<String>, u32)| (text_or_empty(opt_text(m.0)), m.1),
                    ),
                decreases ms.len() - k,
            {
                let name = name_or_empty(&ms[k].0);
                let ghost prev = out@;
                out.push((name, ms[k].1));
                proof {
                    assert(ms@.take(k + 1) =~= ms@.take(k as int).push(ms@[k as int]));
                    assert(members_view(out@) =~= members_view(prev).push((name@, ms@[k as int].1)));
                }
                k += 1;
            }
            assert(ms@.take(ms.len() as int) =~= ms@);
            out
        },
        None => {
            let name = name_or_empty(&g.0);
            let mut out: Vec<(String, u32)> = Vec::new();
            out.push((name, 0));
            out
        },
    };
    let b = UniformBlock { group, binding, size: g.3 as usize, members };
    assert(b@.members =~= block_of(g@).members);
    b
}

/// The uniform blocks of a front-end outcome, or its error (debug-formatted) behind
/// `wgsl parse: ` or `layout: `.
pub fn blocks_from_globals(outcome: Result<Vec<ShaderGlobal>, FrontEndError>) -> (r: Result<
    Vec<UniformBlock>,
    String,
>)
    ensures
        match blocks_outcome(front_end_outcome(outcome)) {
            Ok(bs) => r matches Ok(v) && blocks_view(v@) == bs,
            Err(m) => r matches Err(e) && e@ == m,
        },
{
    match outcome {
        Err(FrontEndError::Parse(_, d)) => Err(prefixed("wgsl parse: ", &d)),
        Err(FrontEndError::Layout(m)) => Err(prefixed("layout: ", &m)),
        Ok(gs) => {
            let mut out: Vec<UniformBlock> = Vec::new();
            let mut i: usize = 0;
            while i < gs.len()
                invariant
                    i <= gs.len(),
                    blocks_view(out@) =~= uniform_blocks_spec(globals_view(gs@).take(i as int)),
                decreases gs.len() - i,
            {
                let g = &gs[i];
                assert(globals_view(gs@).take(i + 1).drop_last() =~= globals_view(gs@).take(
                    i as int,
                ));
                if g.1 {
                    match g.2 {
                        Some((group, binding)) => {
                            let b = block_from(g, group, binding);
                            out.push(b);
                        },
                        None => {},
                    }
                }
                i += 1;
            }
            assert(globals_view(gs@).take(gs.len() as int) =~= globals_view(gs@));
            Ok(out)
        },
    }
}

/// The uniform blocks of a WGSL stage, read through the front end: one per bound global in the
/// uniform address space, in declaration order, with its layout size and member offsets.
pub fn uniform_blocks(wgsl: &str) -> (r: Result<Vec<UniformBlock>, String>)
    ensures
        match blocks_outcome(wgsl_front_end(wgsl@)) {
            Ok(bs) => r matches Ok(v) && blocks_view(v@) == bs,
            Err(m) => r matches Err(e) && e@ == m,
        },
{
    blocks_from_globals(front_end(wgsl))
}

/// Lanes by member name as plain values.
pub open spec fn lane_table(lanes: Seq<(String, Vec<[u8; 4]>)>) -> Seq<(Seq<char>, Seq<[u8; 4]>)> {
    lanes.map_values(|p: (String, Vec<[u8; 4]>)| (p.0@, p.1@))
}

/// The lanes of the first entry of `table` from index `k` on that is filed under `name`, or none.
pub open spec fn lanes_from(table: Seq<(Seq<char>, Seq<[u8; 4]>)>, name: Seq<char>, k: int) -> Seq<
    [u8; 4],
>
    decreases table.len() - k,
{
    if k < 0 || k >= table.len() {
        Seq::empty()
    } else if table[k].0 == name {
        table[k].1
    } else {
        lanes_from(table, name, k + 1)
    }
}

/// The lanes `table` gives the member `name`: its first entry under that name, or none.
pub open spec fn lanes_for(table: Seq<(Seq<char>, Seq<[u8; 4]>)>, name: Seq<char>) -> Seq<[u8; 4]> {
    lanes_from(table, name, 0)
}

/// A block's bytes after [`write_lanes`] wrote `lanes` from byte `off` on.
pub open spec fn lanes_applied(data: Seq<u8>, off: int, lanes: Seq<[u8; 4]>) -> Seq<u8> {
    Seq::new(data.len(), |j: int| lane_written(data, off, lanes, j))
}

/// The bytes of a `size`-byte uniform block: zeros, then each member's lanes from `table`
/// written at its offset, member after member.
pub open spec fn block_bytes(
    members: Seq<(Seq<char>, u32)>,
    table: Seq<(Seq<char>, Seq<[u8; 4]>)>,
    size: nat,
) -> Seq<u8>
    decreases members.len(),
{
    if members.len() == 0 {
        Seq::new(size, |j: int| 0u8)
    } else {
        let m = members.last();
        lanes_applied(block_bytes(members.drop_last(), table, size), m.1 as int, lanes_for(table, m.0))
    }
}

/// The byte offset of the block's `u_time` member (the last one so named), if it has one.
pub open spec fn time_offset_spec(members: Seq<(Seq<char>, u32)>) -> Option<u64>
    decreases members.len(),
{
    if members.len() == 0 {
        None
    } else if members.last().0 == "u_time"@ {
        Some(members.last().1 as u64)
    } else {
        time_offset_spec(members.drop_last())
    }
}

/// Where `lanes` files `name`: the first entry under that name.
fn lane_entry(lanes: &Vec<(String, Vec<[u8; 4]>)>, name: &str) -> (k: Option<usize>)
    ensures
        match k {
            Some(k) => k < lanes.len() && lanes_for(lane_table(lanes@), name@) == lanes@[k as int].1@,
            None => lanes_for(lane_table(lanes@), name@) == Seq::<[u8; 4]>::empty(),
        },
{
    let mut k: usize = 0;
    while k < lanes.len()
        invariant
            k <= lanes.len(),
            lanes_for(lane_table(lanes@), name@) == lanes_from(lane_table(lanes@), name@, k as int),
        decreases lanes.len() - k,
    {
        if same_text(lanes[k].0.as_str(), name) {
            return Some(k);
        }
        k += 1;
    }
    None
}

/// Fills a uniform block by member name: `size` zero bytes, then each member's lanes (the first
/// entry of `lanes` under its name; none where there is no entry) written at its offset, a lane
/// that would run past the end skipped. Also gives the offset of the `u_time` member, the lane a
/// renderer rewrites every frame.
pub fn fill_block(block: &UniformBlock, lanes: &Vec<(String, Vec<[u8; 4]>)>) -> (r: (
    Vec<u8>,
    Option<u64>,
))
    ensures
        r.0@ == block_bytes(block@.members, lane_table(lanes@), block.size as nat),
        r.1 == time_offset_spec(block@.members),
{
    let mut data: Vec<u8> = Vec::new();
    let mut z: usize = 0;
    while z < block.size
        invariant
            z <= block.size,
            data@ =~= Seq::new(z as nat, |j: int| 0u8),
        decreases block.size - z,
    {
        data.push(0);
        z += 1;
    }
    let mut t: Option<u64> = None;
    let mut i: usize = 0;
    while i < block.members.len()
        invariant
            i <= block.members.len(),
            data@ =~= block_bytes(
                block@.members.take(i as int),
                lane_table(lanes@),
                block.size as nat,
            ),
            t == time_offset_spec(block@.members.take(i as int)),
        decreases block.members.len() - i,
    {
        let name = block.members[i].0.as_str();
        let off = block.members[i].1;
        assert(block@.members.take(i + 1).drop_last() =~= block@.members.take(i as int));
        assert(block@.members.take(i + 1).last() == (name@, off));
        if same_text(name, "u_time") {
            t = Some(off as u64);
        }
        let ghost before = data@;
        match lane_entry(lanes, name) {
            Some(k) => {
                write_lanes(&mut data, off as usize, &lanes[k].1);
                assert(data@ =~= lanes_applied(before, off as int, lanes@[k as int].1@));
            },
            None => {
                assert(data@ =~= lanes_applied(before, off as int, Seq::empty()));
            },
        }
        i += 1;
    }
    assert(block@.members.take(block.members.len() as int) =~= block@.members);
    (data, t)
}

} // verus!
