//! Unix paths held as text: joining, components, and prefix tests, with the
//! same meaning as `std::path` gives them on Unix.
use vstd::prelude::*;
use vstd::string::*;
use crate::text::{views, split_where, lemma_split_nonempty, chars_of, chars_eq, text_from, concat2, concat3};

verus! {

/// The separator between path components.
pub open spec fn path_sep() -> Seq<char> {
    seq!['/']
}

/// Whether a path text starts at the root directory.
pub open spec fn is_absolute(p: Seq<char>) -> bool {
    p.len() > 0 && p[0] == '/'
}

/// `base` joined with `rel`, as `Path::join` does on Unix: an absolute `rel`
/// replaces `base`, and a separator is put between them when `base` is
/// neither empty nor ends with one.
pub open spec fn path_join(base: Seq<char>, rel: Seq<char>) -> Seq<char> {
    if is_absolute(rel) {
        rel
    } else if base.len() == 0 || base.last() == '/' {
        base + rel
    } else {
        base + path_sep() + rel
    }
}

/// The pieces of a path text between separators, empty ones included.
pub open spec fn path_segments(p: Seq<char>) -> Seq<Seq<char>> {
    split_where(p, path_sep())
}

/// Whether a segment stands as a normal component after the first position:
/// empty segments (repeated or trailing separators) and `.` are dropped.
pub open spec fn is_kept_segment(s: Seq<char>) -> bool {
    s.len() > 0 && s != seq!['.']
}

/// The segments that `is_kept_segment` accepts, in order.
pub open spec fn kept_segments(segs: Seq<Seq<char>>) -> Seq<Seq<char>>
    decreases segs.len(),
{
    if segs.len() == 0 {
        Seq::empty()
    } else if is_kept_segment(segs.last()) {
        kept_segments(segs.drop_last()).push(segs.last())
    } else {
        kept_segments(segs.drop_last())
    }
}

/// The components of a path, as `Path::components` yields them on Unix.
/// The root directory is the component `/`, a leading current directory the
/// component `.`; no other component contains `/` or equals `.`.
pub open spec fn path_components(p: Seq<char>) -> Seq<Seq<char>> {
    let segs = path_segments(p);
    let head = if is_absolute(p) {
        seq![path_sep()]
    } else if segs[0].len() > 0 {
        seq![segs[0]]
    } else {
        Seq::empty()
    };
    head + kept_segments(segs.drop_first())
}

/// Whether the components of `base` are a prefix of those of `target`, as
/// `Path::starts_with` decides.
pub open spec fn path_starts_with(target: Seq<char>, base: Seq<char>) -> bool {
    let t = path_components(target);
    let b = path_components(base);
    b.len() <= t.len() && t.subrange(0, b.len() as int) == b
}

/// Whether a text is a single normal path component: not empty, no separator,
/// and neither `.` nor `..`.
pub open spec fn is_plain_name(s: Seq<char>) -> bool {
    &&& s.len() > 0
    &&& !s.contains('/')
    &&& s != seq!['.']
    &&& s != seq!['.', '.']
}

/// A copy of a character vector.
pub fn copy_chars(v: &Vec<char>) -> (r: Vec<char>)
    ensures
        r@ == v@,
{
    let mut r: Vec<char> = Vec::new();
    let mut i: usize = 0;
    while i < v.len()
        invariant
            i <= v@.len(),
            r@ == v@.subrange(0, i as int),
        decreases v.len() - i,
    {
        r.push(v[i]);
        i = i + 1;
        assert(r@ =~= v@.subrange(0, i as int));
    }
    assert(r@ =~= v@);
    r
}

/// Whether `c` is one of the characters in `seps`.
pub fn is_one_of(c: char, seps: &Vec<char>) -> (r: bool)
    ensures
        r == seps@.contains(c),
{
    let mut i: usize = 0;
    while i < seps.len()
        invariant
            i <= seps@.len(),
            forall|j: int| 0 <= j < i ==> seps@[j] != c,
        decreases seps.len() - i,
    {
        if seps[i] == c {
            assert(seps@[i as int] == c);
            return true;
        }
        i = i + 1;
    }
    false
}

/// Splits `s` at every character listed in `seps`, keeping empty pieces.
pub fn split_chars(s: &Vec<char>, seps: &Vec<char>) -> (r: Vec<Vec<char>>)
    ensures
        views(r@) == split_where(s@, seps@),
{
    let mut r: Vec<Vec<char>> = Vec::new();
    let mut cur: Vec<char> = Vec::new();
    let mut i: usize = 0;
    assert(s@.subrange(0, 0) =~= Seq::<char>::empty());
    while i < s.len()
        invariant
            i <= s@.len(),
            views(r@).push(cur@) == split_where(s@.subrange(0, i as int), seps@),
        decreases s.len() - i,
    {
        let c = s[i];
        let ghost prev = s@.subrange(0, i as int);
        let ghost next = s@.subrange(0, i + 1);
        assert(next.drop_last() =~= prev);
        assert(next.last() == c);
        let ghost before = views(r@);
        let ghost old_cur = cur@;
        if is_one_of(c, seps) {
            let mut done: Vec<char> = Vec::new();
            std::mem::swap(&mut done, &mut cur);
            r.push(done);
            assert(views(r@) =~= before.push(old_cur));
            assert(views(r@).push(cur@) =~= split_where(next, seps@));
        } else {
            cur.push(c);
            assert(views(r@) =~= before);
            assert(views(r@).push(cur@) =~= before.push(old_cur).update(
                before.len() as int,
                old_cur.push(c),
            ));
        }
        i = i + 1;
    }
    assert(s@.subrange(0, s@.len() as int) =~= s@);
    let ghost before = views(r@);
    r.push(cur);
    assert(views(r@) =~= before.push(cur@));
    r
}

/// `base` joined with `rel`, as `Path::join` does on Unix.
pub fn join_path(base: &str, rel: &str) -> (r: String)
    ensures
        r@ == path_join(base@, rel@),
{
    let rel_len = rel.unicode_len();
    if rel_len > 0 && rel.get_char(0) == '/' {
        return text_from(rel);
    }
    let base_len = base.unicode_len();
    if base_len == 0 || base.get_char(base_len - 1) == '/' {
        concat2(base, rel)
    } else {
        let r = concat3(base, "/", rel);
        proof {
            reveal_strlit("/");
        }
        assert(r@ =~= path_join(base@, rel@));
        r
    }
}

/// The components of a path, as `Path::components` yields them on Unix.
pub fn components(p: &str) -> (r: Vec<Vec<char>>)
    ensures
        views(r@) == path_components(p@),
{
    let cs = chars_of(p);
    let seps: Vec<char> = vec!['/'];
    assert(seps@ =~= path_sep());
    let segs = split_chars(&cs, &seps);
    proof {
        lemma_split_nonempty(p@, path_sep());
    }
    assert(views(segs@).len() == segs@.len());
    let mut r: Vec<Vec<char>> = Vec::new();
    if cs.len() > 0 && cs[0] == '/' {
        let root: Vec<char> = vec!['/'];
        r.push(root);
        assert(views(r@) =~= seq![path_sep()]);
    } else if segs[0].len() > 0 {
        r.push(copy_chars(&segs[0]));
        assert(views(segs@)[0] == segs@[0]@);
        assert(views(r@) =~= seq![views(segs@)[0]]);
    } else {
        assert(views(r@) =~= Seq::<Seq<char>>::empty());
    }
    let ghost head = views(r@);
    let ghost all = views(segs@);
    let mut i: usize = 1;
    assert(all.subrange(1, 1) =~= Seq::<Seq<char>>::empty());
    while i < segs.len()
        invariant
            1 <= i <= segs@.len(),
            all == views(segs@),
            all.len() == segs@.len(),
            views(r@) == head + kept_segments(all.subrange(1, i as int)),
        decreases segs.len() - i,
    {
        let seg = &segs[i];
        assert(all[i as int] == seg@);
        let ghost before = views(r@);
        let ghost sub = all.subrange(1, i + 1);
        assert(sub.drop_last() =~= all.subrange(1, i as int));
        assert(sub.last() == seg@);
        let dot = seg.len() == 1 && seg[0] == '.';
        if seg.len() > 0 && !dot {
            assert(seg@ != seq!['.']);
            r.push(copy_chars(seg));
            assert(views(r@) =~= before.push(seg@));
            assert(views(r@) =~= head + kept_segments(sub));
        } else {
            assert(!is_kept_segment(seg@)) by {
                if seg@.len() == 1 && seg@[0] == '.' {
                    assert(seg@ =~= seq!['.']);
                }
            }
        }
        i = i + 1;
    }
    assert(all.subrange(1, all.len() as int) =~= all.drop_first());
    r
}

/// Whether two component lists start alike: `base` is a prefix of `target`.
pub fn components_prefix(target: &Vec<Vec<char>>, base: &Vec<Vec<char>>) -> (r: bool)
    ensures
        r == (views(base@).len() <= views(target@).len() && views(target@).subrange(
            0,
            views(base@).len() as int,
        ) == views(base@)),
{
    let ghost t = views(target@);
    let ghost b = views(base@);
    if base.len() > target.len() {
        return false;
    }
    let mut i: usize = 0;
    while i < base.len()
        invariant
            t == views(target@),
            b == views(base@),
            b.len() <= t.len(),
            i <= b.len(),
            forall|j: int| 0 <= j < i ==> t[j] == b[j],
        decreases base.len() - i,
    {
        if !chars_eq(&target[i], &base[i]) {
            assert(t[i as int] != b[i as int]);
            assert(t.subrange(0, b.len() as int)[i as int] != b[i as int]);
            return false;
        }
        i = i + 1;
    }
    assert(t.subrange(0, b.len() as int) =~= b);
    true
}

/// Whether `target` lies under `base`, as `Path::starts_with` decides.
pub fn starts_with(target: &str, base: &str) -> (r: bool)
    ensures
        r == path_starts_with(target@, base@),
{
    let t = components(target);
    let b = components(base);
    components_prefix(&t, &b)
}


/// Splitting text that ends with a separator-free piece extends the last piece.
pub proof fn lemma_split_append_plain(a: Seq<char>, b: Seq<char>, seps: Seq<char>)
    requires
        forall|i: int| 0 <= i < b.len() ==> !seps.contains(#[trigger] b[i]),
    ensures
        split_where(a + b, seps) == split_where(a, seps).update(
            split_where(a, seps).len() - 1,
            split_where(a, seps).last() + b,
        ),
        split_where(a + b, seps).len() == split_where(a, seps).len(),
    decreases b.len(),
{
    lemma_split_nonempty(a, seps);
    if b.len() == 0 {
        assert(a + b =~= a);
        let s = split_where(a, seps);
        assert(s.last() + b =~= s.last());
        assert(s.update(s.len() - 1, s.last() + b) =~= s);
    } else {
        let b0 = b.drop_last();
        assert forall|i: int| 0 <= i < b0.len() implies !seps.contains(#[trigger] b0[i]) by {
            assert(b0[i] == b[i]);
        }
        lemma_split_append_plain(a, b0, seps);
        assert((a + b).drop_last() =~= a + b0);
        assert((a + b).last() == b.last());
        assert(!seps.contains(b[b.len() - 1]));
        let s = split_where(a, seps);
        lemma_split_nonempty(a + b0, seps);
        let prev = split_where(a + b0, seps);
        assert(prev == s.update(s.len() - 1, s.last() + b0));
        assert(prev.last() == s.last() + b0);
        assert((s.last() + b0).push(b.last()) =~= s.last() + b);
        assert(split_where(a + b, seps) == prev.update(prev.len() - 1, prev.last().push(b.last())));
        assert(split_where(a + b, seps) =~= s.update(s.len() - 1, s.last() + b));
    }
}

/// Splitting at a final separator adds an empty piece.
pub proof fn lemma_split_append_sep(a: Seq<char>, c: char, seps: Seq<char>)
    requires
        seps.contains(c),
    ensures
        split_where(a.push(c), seps) == split_where(a, seps).push(Seq::empty()),
{
    assert(a.push(c).drop_last() =~= a);
}

/// Splitting at a separator that joins two texts splits each side on its own.
pub proof fn lemma_split_at_sep(a: Seq<char>, c: char, b: Seq<char>, seps: Seq<char>)
    requires
        seps.contains(c),
    ensures
        split_where(a.push(c) + b, seps) == split_where(a, seps) + split_where(b, seps),
    decreases b.len(),
{
    lemma_split_nonempty(b, seps);
    let sa = split_where(a, seps);
    if b.len() == 0 {
        assert(a.push(c) + b =~= a.push(c));
        lemma_split_append_sep(a, c, seps);
        assert(split_where(b, seps) =~= seq![Seq::<char>::empty()]);
        assert(sa.push(Seq::<char>::empty()) =~= sa + split_where(b, seps));
    } else {
        let b0 = b.drop_last();
        let x = b.last();
        lemma_split_at_sep(a, c, b0, seps);
        lemma_split_nonempty(b0, seps);
        let whole = a.push(c) + b;
        assert(whole.drop_last() =~= a.push(c) + b0);
        assert(whole.last() == x);
        let s0 = split_where(b0, seps);
        let p = sa + s0;
        assert(split_where(whole, seps) == if seps.contains(x) {
            p.push(Seq::<char>::empty())
        } else {
            p.update(p.len() - 1, p.last().push(x))
        });
        if seps.contains(x) {
            assert(split_where(b, seps) == s0.push(Seq::<char>::empty()));
            assert(p.push(Seq::<char>::empty()) =~= sa + s0.push(Seq::<char>::empty()));
        } else {
            assert(split_where(b, seps) == s0.update(s0.len() - 1, s0.last().push(x)));
            assert(p.last() == s0.last());
            assert(p.update(p.len() - 1, p.last().push(x)) =~= sa + s0.update(
                s0.len() - 1,
                s0.last().push(x),
            ));
        }
    }
}

/// Keeping the normal segments of two lists one after the other keeps those
/// of each.
pub proof fn lemma_kept_concat(a: Seq<Seq<char>>, b: Seq<Seq<char>>)
    ensures
        kept_segments(a + b) == kept_segments(a) + kept_segments(b),
    decreases b.len(),
{
    if b.len() == 0 {
        assert(a + b =~= a);
        assert(kept_segments(b) =~= Seq::<Seq<char>>::empty());
        assert(kept_segments(a) + kept_segments(b) =~= kept_segments(a));
    } else {
        let b0 = b.drop_last();
        lemma_kept_concat(a, b0);
        assert((a + b).drop_last() =~= a + b0);
        assert((a + b).last() == b.last());
        if is_kept_segment(b.last()) {
            assert((kept_segments(a) + kept_segments(b0)).push(b.last()) =~= kept_segments(a)
                + kept_segments(b0).push(b.last()));
        }
    }
}

/// Joining a relative path onto a non-empty base adds the relative path's
/// normal segments after the base's own components.
pub proof fn lemma_join_components(base: Seq<char>, rel: Seq<char>)
    requires
        base.len() > 0,
        !is_absolute(rel),
    ensures
        path_components(path_join(base, rel)) == path_components(base) + kept_segments(
            path_segments(rel),
        ),
{
    let sep = path_sep();
    assert(sep.contains('/')) by {
        assert(sep[0] == '/');
    }
    let pre = if base.last() == '/' { base.drop_last() } else { base };
    let with_sep = pre.push('/');
    if base.last() == '/' {
        assert(with_sep =~= base);
    }
    assert(path_join(base, rel) =~= with_sep + rel);
    lemma_split_at_sep(pre, '/', rel, sep);
    lemma_split_append_sep(pre, '/', sep);
    lemma_split_nonempty(pre, sep);
    lemma_split_nonempty(rel, sep);
    let s = split_where(pre, sep);
    let r = split_where(rel, sep);
    let sj = split_where(with_sep + rel, sep);
    assert(sj == s + r);
    assert(sj[0] == s[0]);
    assert(sj.drop_first() =~= s.drop_first() + r);
    lemma_kept_concat(s.drop_first(), r);
    let sb = path_segments(base);
    if base.last() == '/' {
        assert(sb == s.push(Seq::<char>::empty()));
        assert(sb.drop_first() =~= s.drop_first().push(Seq::<char>::empty()));
        assert(s.drop_first().push(Seq::<char>::empty()).drop_last() =~= s.drop_first());
        assert(kept_segments(sb.drop_first()) == kept_segments(s.drop_first()));
    } else {
        assert(sb == s);
    }
    assert(sb[0] == s[0]);
    assert(is_absolute(with_sep + rel) == is_absolute(base)) by {
        assert((with_sep + rel)[0] == base[0]);
    }
    let hb = if is_absolute(base) {
        seq![path_sep()]
    } else if s[0].len() > 0 {
        seq![s[0]]
    } else {
        Seq::<Seq<char>>::empty()
    };
    assert(path_components(base) == hb + kept_segments(s.drop_first()));
    assert(path_components(with_sep + rel) == hb + (kept_segments(s.drop_first())
        + kept_segments(r)));
    assert(hb + (kept_segments(s.drop_first()) + kept_segments(r)) =~= (hb + kept_segments(
        s.drop_first(),
    )) + kept_segments(r));
}

/// A relative path whose first segment is not `.` consists of its normal
/// segments: nothing of it is lost when it is joined onto a base.
pub proof fn lemma_kept_relative(rel: Seq<char>)
    requires
        !is_absolute(rel),
        path_segments(rel)[0] != seq!['.'],
    ensures
        kept_segments(path_segments(rel)) == path_components(rel),
{
    lemma_split_nonempty(rel, path_sep());
    let segs = path_segments(rel);
    let one = seq![segs[0]];
    assert(segs =~= one + segs.drop_first());
    lemma_kept_concat(one, segs.drop_first());
    assert(one.drop_last() =~= Seq::<Seq<char>>::empty());
    assert(kept_segments(Seq::<Seq<char>>::empty()) =~= Seq::<Seq<char>>::empty());
    if segs[0].len() > 0 {
        assert(kept_segments(one) =~= one);
    } else {
        assert(kept_segments(one) =~= Seq::<Seq<char>>::empty());
    }
    assert(kept_segments(one) + kept_segments(segs.drop_first()) =~= path_components(rel));
}

/// Joining keeps the base as a prefix: a non-empty base joined with any
/// relative path lies under the base.
pub proof fn lemma_join_starts_with(base: Seq<char>, rel: Seq<char>)
    requires
        base.len() > 0,
        !is_absolute(rel),
    ensures
        path_starts_with(path_join(base, rel), base),
        path_join(base, rel).len() > 0,
{
    lemma_join_components(base, rel);
    let b = path_components(base);
    assert((b + kept_segments(path_segments(rel))).subrange(0, b.len() as int) =~= b);
}

/// Lying under a path is transitive.
pub proof fn lemma_starts_with_trans(a: Seq<char>, b: Seq<char>, c: Seq<char>)
    requires
        path_starts_with(a, b),
        path_starts_with(b, c),
    ensures
        path_starts_with(a, c),
{
    let ca = path_components(a);
    let cb = path_components(b);
    let cc = path_components(c);
    assert(ca.subrange(0, cc.len() as int) =~= cb.subrange(0, cc.len() as int));
}

/// A plain name holds no separator.
pub proof fn lemma_plain_name_no_sep(seg: Seq<char>)
    requires
        is_plain_name(seg),
    ensures
        forall|i: int| 0 <= i < seg.len() ==> !path_sep().contains(#[trigger] seg[i]),
{
    assert forall|i: int| 0 <= i < seg.len() implies !path_sep().contains(#[trigger] seg[i]) by {
        if path_sep().contains(seg[i]) {
            assert(path_sep()[0] == '/');
            assert(seg[i] == '/');
            assert(seg.contains('/'));
        }
    }
}

/// Joining a plain name onto a path adds exactly that name as a last component.
pub proof fn lemma_join_plain_components(base: Seq<char>, seg: Seq<char>)
    requires
        is_plain_name(seg),
    ensures
        path_components(path_join(base, seg)) == path_components(base).push(seg),
{
    lemma_plain_name_no_sep(seg);
    let sep = path_sep();
    assert(seg[0] != '/') by {
        assert(!sep.contains(seg[0]));
        assert(sep[0] == '/');
    }
    assert(!is_absolute(seg));
    assert(is_kept_segment(seg));
    if base.len() == 0 {
        assert(path_join(base, seg) =~= seg);
        assert(Seq::<char>::empty() + seg =~= seg);
        lemma_split_append_plain(Seq::<char>::empty(), seg, sep);
        let e = split_where(Seq::<char>::empty(), sep);
        assert(e =~= seq![Seq::<char>::empty()]);
        assert(e.update(0, e.last() + seg) =~= seq![seg]);
        assert(split_where(seg, sep) =~= seq![seg]);
        assert(seq![seg].drop_first() =~= Seq::<Seq<char>>::empty());
        assert(e.drop_first() =~= Seq::<Seq<char>>::empty());
        assert(path_components(base) =~= Seq::<Seq<char>>::empty());
        assert(path_components(seg) =~= seq![seg]);
    } else {
        // `pre` is the text before the separator that precedes `seg`.
        let pre = if base.last() == '/' { base.drop_last() } else { base };
        let with_sep = pre.push('/');
        assert(sep.contains('/')) by {
            assert(sep[0] == '/');
        }
        if base.last() == '/' {
            assert(with_sep =~= base);
        }
        assert(path_join(base, seg) =~= with_sep + seg);
        lemma_split_append_sep(pre, '/', sep);
        lemma_split_append_plain(with_sep, seg, sep);
        lemma_split_nonempty(pre, sep);
        let s = split_where(pre, sep);
        let sb = split_where(with_sep, sep);
        let sj = split_where(with_sep + seg, sep);
        assert(sb == s.push(Seq::<char>::empty()));
        assert(sj =~= s.push(seg)) by {
            assert(sb.last() + seg =~= seg);
            assert(sb.update(sb.len() - 1, sb.last() + seg) =~= s.push(seg));
        }
        assert(sj.drop_first() =~= s.drop_first().push(seg));
        assert(sb.drop_first() =~= s.drop_first().push(Seq::<char>::empty()));
        assert(kept_segments(s.drop_first().push(seg)).drop_last() =~= kept_segments(s.drop_first())) by {
            assert(s.drop_first().push(seg).drop_last() =~= s.drop_first());
        }
        assert(kept_segments(s.drop_first().push(Seq::<char>::empty())) == kept_segments(s.drop_first())) by {
            assert(s.drop_first().push(Seq::<char>::empty()).drop_last() =~= s.drop_first());
        }
        assert(sj[0] == s[0]);
        assert(sb[0] == s[0]);
        assert(is_absolute(with_sep + seg) == is_absolute(base)) by {
            assert((with_sep + seg)[0] == base[0]);
        }
        let hb = if is_absolute(base) {
            seq![path_sep()]
        } else if s[0].len() > 0 {
            seq![s[0]]
        } else {
            Seq::<Seq<char>>::empty()
        };
        assert(path_components(base) == hb + kept_segments(s.drop_first()));
        assert(path_components(with_sep + seg) == hb + kept_segments(s.drop_first()).push(seg));
        assert(hb + kept_segments(s.drop_first()).push(seg) =~= (hb + kept_segments(s.drop_first())).push(seg));
    }
}

} // verus!
