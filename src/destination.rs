//! The destination file: declarations of several records kept side by side,
//! each replaced by name when its record is generated again.
use vstd::prelude::*;

verus! {

/// Whether `b` ends a declaration: its last two characters are `}` and a line break.
pub open spec fn ends_closed(b: Seq<char>) -> bool {
    b.len() >= 2 && b[b.len() - 2] == '}' && b[b.len() - 1] == '\n'
}

/// The blocks of a text: each block runs up to and including the next `}`
/// followed by a line break; what is left after the last one is a block too.
pub open spec fn blocks_of(t: Seq<char>) -> Seq<Seq<char>>
    decreases t.len(),
{
    if t.len() == 0 {
        Seq::empty()
    } else {
        let r = blocks_of(t.drop_last());
        if r.len() == 0 || ends_closed(r.last()) {
            r.push(seq![t.last()])
        } else {
            r.update(r.len() - 1, r.last().push(t.last()))
        }
    }
}

/// The blocks written one after the other.
pub open spec fn joined(bs: Seq<Seq<char>>) -> Seq<char>
    decreases bs.len(),
{
    if bs.len() == 0 {
        Seq::empty()
    } else {
        joined(bs.drop_last()) + bs.last()
    }
}

/// The first line of the declaration of `name`.
pub open spec fn header(name: Seq<char>) -> Seq<char> {
    "interface "@ + name + " {\n"@
}

/// Whether block `b` declares the interface `name`.
pub open spec fn declares(b: Seq<char>, name: Seq<char>) -> bool {
    header(name).len() <= b.len() && b.subrange(0, header(name).len() as int) == header(name)
}

/// The blocks with each declaration of `name` replaced by `d`.
pub open spec fn replaced(bs: Seq<Seq<char>>, name: Seq<char>, d: Seq<char>) -> Seq<Seq<char>> {
    bs.map_values(|b: Seq<char>| if declares(b, name) { d } else { b })
}

/// The destination text after storing `d` as the declaration of `name`:
/// each block that declares `name` becomes `d`; when none does, `d` is appended.
pub open spec fn merged(t: Seq<char>, name: Seq<char>, d: Seq<char>) -> Seq<char> {
    let bs = blocks_of(t);
    if exists|j: int| 0 <= j < bs.len() && declares(#[trigger] bs[j], name) {
        joined(replaced(bs, name, d))
    } else {
        joined(bs.push(d))
    }
}

/// Whether `b` is one whole declaration block: it ends with `}` and a line
/// break, and holds no such pair before that.
pub open spec fn is_whole_block(b: Seq<char>) -> bool {
    &&& ends_closed(b)
    &&& forall|k: int| 0 < k < b.len() - 1 ==> !(b[k - 1] == '}' && #[trigger] b[k] == '\n')
}

/// The views of a vector of strings.
pub open spec fn strings_view(v: Seq<String>) -> Seq<Seq<char>> {
    v.map_values(|s: String| s@)
}

/// Splits a destination text into its blocks.
pub fn split_blocks(text: &str) -> (blocks: Vec<String>)
    ensures
        strings_view(blocks@) == blocks_of(text@),
{
    let n = text.unicode_len();
    let mut blocks: Vec<String> = Vec::new();
    let mut start: usize = 0;
    let mut i: usize = 0;
    assert(text@.take(0) =~= Seq::<char>::empty());
    assert(strings_view(blocks@) =~= Seq::<Seq<char>>::empty());
    while i < n
        invariant
            n == text@.len(),
            start <= i <= n,
            start < i ==> !ends_closed(text@.subrange(start as int, i as int)),
            strings_view(blocks@).len() == 0 || ends_closed(strings_view(blocks@).last()),
            blocks_of(text@.take(i as int)) == if start < i {
                strings_view(blocks@).push(text@.subrange(start as int, i as int))
            } else {
                strings_view(blocks@)
            },
        decreases n - i,
    {
        let c = text.get_char(i);
        let ghost t = text@;
        proof {
            assert(t.take(i + 1).drop_last() =~= t.take(i as int));
            assert(t.take(i + 1).last() == c);
            if start < i {
                let r = blocks_of(t.take(i as int));
                assert(r.last() == t.subrange(start as int, i as int));
                assert(r.last().push(c) =~= t.subrange(start as int, i + 1));
                assert(r.update(r.len() - 1, t.subrange(start as int, i + 1)) =~= strings_view(
                    blocks@,
                ).push(t.subrange(start as int, i + 1)));
            } else {
                assert(seq![c] =~= t.subrange(start as int, i + 1));
            }
        }
        let closes = c == '\n' && start < i && text.get_char(i - 1) == '}';
        assert(closes == ends_closed(t.subrange(start as int, i + 1)));
        i = i + 1;
        if closes {
            let ghost before = blocks@;
            let block = String::from_str(text.substring_char(start, i));
            blocks.push(block);
            assert(strings_view(blocks@) =~= strings_view(before).push(t.subrange(start as int, i as int)));
            start = i;
        }
    }
    assert(text@.take(n as int) =~= text@);
    if start < n {
        let ghost before = blocks@;
        blocks.push(String::from_str(text.substring_char(start, n)));
        assert(strings_view(blocks@) =~= strings_view(before).push(text@.subrange(start as int, n as int)));
    }
    blocks
}

/// Whether `block` declares the interface `name`.
pub fn declares_interface(block: &String, name: &String) -> (r: bool)
    ensures
        r == declares(block@, name@),
{
    let mut head = String::from_str("interface ");
    head.append(name.as_str());
    head.append(" {\n");
    let head_len = head.as_str().unicode_len();
    let block_len = block.as_str().unicode_len();
    if head_len <= block_len {
        String::from_str(block.as_str().substring_char(0, head_len)) == head
    } else {
        false
    }
}

/// Stores `declaration` as the declaration of `name` in the destination text
/// `existing`: blocks that declare `name` are replaced, the others are kept in
/// place, and when no block declares `name` the declaration is appended.
pub fn merge_declaration(existing: &str, name: &String, declaration: &String) -> (text: String)
    ensures
        text@ == merged(existing@, name@, declaration@),
{
    let blocks = split_blocks(existing);
    let ghost bs = blocks_of(existing@);
    let ghost rs = replaced(bs, name@, declaration@);
    let mut text = String::new();
    let mut found = false;
    let mut j: usize = 0;
    assert(rs.take(0) =~= Seq::<Seq<char>>::empty());
    while j < blocks.len()
        invariant
            j <= blocks.len(),
            strings_view(blocks@) == bs,
            rs == replaced(bs, name@, declaration@),
            text@ == joined(rs.take(j as int)),
            found == exists|k: int| 0 <= k < j && declares(#[trigger] bs[k], name@),
        decreases blocks.len() - j,
    {
        assert(bs[j as int] == blocks[j as int]@);
        assert(rs.take(j + 1).drop_last() =~= rs.take(j as int));
        if declares_interface(&blocks[j], name) {
            text.append(declaration.as_str());
            found = true;
        } else {
            text.append(blocks[j].as_str());
        }
        j = j + 1;
    }
    assert(rs.take(j as int) =~= rs);
    if !found {
        assert(rs =~= bs);
        assert(bs.push(declaration@).drop_last() =~= bs);
        text.append(declaration.as_str());
    }
    text
}

proof fn lemma_last_char(t: Seq<char>)
    requires
        t.len() > 0,
    ensures
        blocks_of(t).len() > 0,
        blocks_of(t).last().len() > 0,
        blocks_of(t).last().last() == t.last(),
    decreases t.len(),
{
    if t.len() > 1 {
        lemma_last_char(t.drop_last());
    }
}

proof fn lemma_ends_closed(t: Seq<char>)
    requires
        ends_closed(t),
    ensures
        blocks_of(t).len() > 0,
        ends_closed(blocks_of(t).last()),
{
    let p = t.drop_last();
    lemma_last_char(p);
    let r = blocks_of(p);
    assert(r.last().last() == '}');
    assert(!ends_closed(r.last()));
    assert(r.update(r.len() - 1, r.last().push(t.last())).last() == r.last().push(t.last()));
}

proof fn lemma_append(a: Seq<char>, b: Seq<char>)
    requires
        a.len() == 0 || ends_closed(a),
    ensures
        blocks_of(a + b) == blocks_of(a) + blocks_of(b),
    decreases b.len(),
{
    if b.len() == 0 {
        assert(a + b =~= a);
        assert(blocks_of(a) + blocks_of(b) =~= blocks_of(a));
    } else {
        assert((a + b).drop_last() =~= a + b.drop_last());
        assert((a + b).last() == b.last());
        lemma_append(a, b.drop_last());
        let ra = blocks_of(a);
        let rb = blocks_of(b.drop_last());
        if a.len() > 0 {
            lemma_ends_closed(a);
        }
        if rb.len() == 0 {
            assert(ra + rb =~= ra);
            assert(ra.push(seq![b.last()]) =~= ra + rb.push(seq![b.last()]));
        } else {
            assert((ra + rb).last() == rb.last());
            if ends_closed(rb.last()) {
                assert((ra + rb).push(seq![b.last()]) =~= ra + rb.push(seq![b.last()]));
            } else {
                assert((ra + rb).update((ra + rb).len() - 1, rb.last().push(b.last())) =~= ra
                    + rb.update(rb.len() - 1, rb.last().push(b.last())));
            }
        }
    }
}

proof fn lemma_whole_block(d: Seq<char>)
    requires
        is_whole_block(d),
    ensures
        blocks_of(d) == seq![d],
{
    assert forall|m: int| 1 <= m <= d.len() implies blocks_of(#[trigger] d.take(m)) == seq![d.take(m)] by {
        lemma_prefix_block(d, m);
    }
    assert(d.take(d.len() as int) =~= d);
}

proof fn lemma_prefix_block(d: Seq<char>, m: int)
    requires
        is_whole_block(d),
        1 <= m <= d.len(),
    ensures
        blocks_of(d.take(m)) == seq![d.take(m)],
    decreases m,
{
    let p = d.take(m);
    if m == 1 {
        assert(p.drop_last() =~= Seq::<char>::empty());
        assert(blocks_of(p.drop_last()).len() == 0);
        assert(seq![p.last()] =~= p);
        assert(blocks_of(p) == blocks_of(p.drop_last()).push(seq![p.last()]));
        assert(blocks_of(p.drop_last()).push(seq![p.last()]) =~= seq![p]);
    } else {
        lemma_prefix_block(d, m - 1);
        assert(p.drop_last() =~= d.take(m - 1));
        let q = d.take(m - 1);
        if m - 1 >= 2 {
            assert(q[m - 3] == d[m - 3] && q[m - 2] == d[m - 2]);
            assert(!(d[m - 3] == '}' && d[m - 2] == '\n'));
        }
        assert(!ends_closed(q));
        assert(q.push(p.last()) =~= p);
        assert(seq![q].update(0, p) =~= seq![p]);
        assert(blocks_of(p.drop_last()) == seq![q]);
        assert(seq![q].last() == q);
    }
}

proof fn lemma_blocks_are_whole(t: Seq<char>)
    requires
        t.len() == 0 || ends_closed(t),
    ensures
        forall|j: int| 0 <= j < blocks_of(t).len() ==> is_whole_block(#[trigger] blocks_of(t)[j]),
        joined(blocks_of(t)) == t,
{
    lemma_shape(t);
    if t.len() > 0 {
        lemma_ends_closed(t);
    }
}

proof fn lemma_shape(t: Seq<char>)
    ensures
        joined(blocks_of(t)) == t,
        forall|j: int| 0 <= j < blocks_of(t).len() ==> (#[trigger] blocks_of(t)[j]).len() > 0,
        forall|j: int| 0 <= j < blocks_of(t).len() - 1 ==> ends_closed(#[trigger] blocks_of(t)[j]),
        forall|j: int, k: int|
            0 <= j < blocks_of(t).len() && 0 < k < blocks_of(t)[j].len() - 1 ==> !(blocks_of(t)[j][k - 1]
                == '}' && #[trigger] blocks_of(t)[j][k] == '\n'),
        blocks_of(t).len() > 0 && !ends_closed(blocks_of(t).last()) ==> forall|k: int|
            0 < k < blocks_of(t).last().len() ==> !(blocks_of(t).last()[k - 1] == '}'
                && #[trigger] blocks_of(t).last()[k] == '\n'),
    decreases t.len(),
{
    if t.len() > 0 {
        let p = t.drop_last();
        lemma_shape(p);
        let r = blocks_of(p);
        let c = t.last();
        if r.len() == 0 || ends_closed(r.last()) {
            assert(r.push(seq![c]).drop_last() =~= r);
            assert(joined(r) + seq![c] =~= t);
        } else {
            let u = r.update(r.len() - 1, r.last().push(c));
            assert(u.drop_last() =~= r.drop_last());
            assert(joined(r) == joined(r.drop_last()) + r.last());
            assert(joined(u) == joined(u.drop_last()) + u.last());
            assert(u.last() == r.last().push(c));
            assert(joined(r.drop_last()) + r.last().push(c) =~= joined(r) + seq![c]);
            assert(p + seq![c] =~= t);
            let nb = r.last().push(c);
            assert forall|k: int| 0 < k < nb.len() - 1 implies !(nb[k - 1] == '}' && #[trigger] nb[k]
                == '\n') by {
                assert(nb[k - 1] == r.last()[k - 1] && nb[k] == r.last()[k]);
            }
        }
    }
}

proof fn lemma_join_split(cs: Seq<Seq<char>>)
    requires
        forall|j: int| 0 <= j < cs.len() ==> is_whole_block(#[trigger] cs[j]),
    ensures
        blocks_of(joined(cs)) == cs,
        joined(cs).len() == 0 || ends_closed(joined(cs)),
    decreases cs.len(),
{
    if cs.len() > 0 {
        let init = cs.drop_last();
        lemma_join_split(init);
        let d = cs.last();
        assert(is_whole_block(cs[cs.len() - 1]));
        lemma_append(joined(init), d);
        lemma_whole_block(d);
        assert(init + seq![d] =~= cs);
        let j = joined(cs);
        assert(j[j.len() - 2] == d[d.len() - 2] && j[j.len() - 1] == d[d.len() - 1]);
    }
}

/// Storing a declaration again changes nothing: when the destination holds
/// whole declarations and `d` is one whole declaration of `name`, merging `d`
/// a second time yields the same text as merging it once.
pub proof fn merging_again_is_identical(t: Seq<char>, name: Seq<char>, d: Seq<char>)
    requires
        t.len() == 0 || ends_closed(t),
        is_whole_block(d),
        declares(d, name),
    ensures
        merged(merged(t, name, d), name, d) == merged(t, name, d),
{
    lemma_blocks_are_whole(t);
    let bs = blocks_of(t);
    let rs = if exists|j: int| 0 <= j < bs.len() && declares(#[trigger] bs[j], name) {
        replaced(bs, name, d)
    } else {
        bs.push(d)
    };
    assert forall|j: int| 0 <= j < rs.len() implies is_whole_block(#[trigger] rs[j]) by {
        if j < bs.len() {
            assert(is_whole_block(bs[j]));
        }
    }
    lemma_join_split(rs);
    assert(merged(t, name, d) == joined(rs));
    if exists|j: int| 0 <= j < bs.len() && declares(#[trigger] bs[j], name) {
        let j = choose|j: int| 0 <= j < bs.len() && declares(#[trigger] bs[j], name);
        assert(rs[j] == d);
    } else {
        assert(rs[bs.len() as int] == d);
    }
    assert(replaced(rs, name, d) =~= rs);
}

} // verus!
