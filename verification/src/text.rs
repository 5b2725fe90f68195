//! A recursive text-composition tree: a plain leaf, a repeated wrapper and
//! a joined combiner, each flattening to a string.

use vstd::prelude::*;

verus! {

/// The mathematical shape of a text node: the tree that evaluation walks.
pub enum TextV {
    Plain(Seq<char>),
    Repeated(Box<TextV>, nat),
    Joined(Seq<TextV>, Seq<char>),
}

/// `s` concatenated with itself `n` times; empty when `n` is zero.
pub open spec fn repeat_seq(s: Seq<char>, n: nat) -> Seq<char>
    decreases n,
{
    if n == 0 {
        Seq::empty()
    } else {
        repeat_seq(s, (n - 1) as nat) + s
    }
}

/// The parts concatenated with `sep` between consecutive parts: no
/// separator before the first part or after the last.
pub open spec fn join_seqs(parts: Seq<Seq<char>>, sep: Seq<char>) -> Seq<char>
    decreases parts.len(),
{
    if parts.len() == 0 {
        Seq::empty()
    } else if parts.len() == 1 {
        parts[0]
    } else {
        parts[0] + sep + join_seqs(parts.subrange(1, parts.len() as int), sep)
    }
}

/// The flattened string of a text node: a plain leaf is its content, a
/// repeated node is its child's value repeated, and a joined node is its
/// children's values joined with its separator.
pub open spec fn value_of(t: TextV) -> Seq<char>
    decreases t, 0nat,
{
    match t {
        TextV::Plain(s) => s,
        TextV::Repeated(child, n) => repeat_seq(value_of(*child), n),
        TextV::Joined(children, sep) => join_seqs(values_of(children), sep),
    }
}

/// The flattened strings of a sequence of text nodes, in order.
pub open spec fn values_of(ts: Seq<TextV>) -> Seq<Seq<char>>
    decreases ts, ts.len(),
{
    if ts.len() == 0 {
        Seq::empty()
    } else {
        seq![value_of(ts[0])] + values_of(ts.subrange(1, ts.len() as int))
    }
}

/// One node per child: `values_of` keeps the length of its input.
pub proof fn lemma_values_of_len(ts: Seq<TextV>)
    ensures
        values_of(ts).len() == ts.len(),
    decreases ts.len(),
{
    if ts.len() > 0 {
        lemma_values_of_len(ts.subrange(1, ts.len() as int));
    }
}

/// Appending a node appends its value: `values_of` distributes over `push`.
pub proof fn lemma_values_of_push(ts: Seq<TextV>, t: TextV)
    ensures
        values_of(ts.push(t)) == values_of(ts).push(value_of(t)),
    decreases ts.len(),
{
    if ts.len() == 0 {
        assert(ts.push(t)[0] == t);
        assert(ts.push(t).subrange(1, 1) =~= Seq::<TextV>::empty());
        assert(values_of(ts.push(t)) == seq![value_of(t)] + values_of(Seq::<TextV>::empty()));
        assert(values_of(ts.push(t)) =~= values_of(ts).push(value_of(t)));
    } else {
        let tail = ts.subrange(1, ts.len() as int);
        lemma_values_of_push(tail, t);
        assert(ts.push(t)[0] == ts[0]);
        assert(ts.push(t).subrange(1, ts.len() as int + 1) =~= tail.push(t));
        assert(values_of(ts.push(t)) == seq![value_of(ts[0])] + values_of(tail).push(value_of(t)));
        assert(values_of(ts.push(t)) =~= values_of(ts).push(value_of(t)));
    }
}

/// Joining one more part appends a separator and that part, except that
/// the first part arrives with no separator.
pub proof fn lemma_join_push(parts: Seq<Seq<char>>, sep: Seq<char>, p: Seq<char>)
    ensures
        join_seqs(parts.push(p), sep) == if parts.len() == 0 {
            p
        } else {
            join_seqs(parts, sep) + sep + p
        },
    decreases parts.len(),
{
    if parts.len() == 0 {
        assert(join_seqs(parts.push(p), sep) == parts.push(p)[0]);
    } else if parts.len() == 1 {
        assert(parts.push(p)[0] == parts[0]);
        assert(parts.push(p).subrange(1, 2) =~= seq![p]);
        assert(join_seqs(seq![p], sep) == p);
        assert(join_seqs(parts.push(p), sep) == parts[0] + sep + p);
    } else {
        let tail = parts.subrange(1, parts.len() as int);
        lemma_join_push(tail, sep, p);
        assert(parts.push(p)[0] == parts[0]);
        assert(parts.push(p).subrange(1, parts.len() as int + 1) =~= tail.push(p));
        assert(join_seqs(parts.push(p), sep) == parts[0] + sep + (join_seqs(tail, sep) + sep + p));
        assert(join_seqs(parts.push(p), sep) =~= join_seqs(parts, sep) + sep + p);
    }
}

/// Repetition counts add: repeating `a + b` times is repeating `a` times,
/// then `b` times.
pub proof fn lemma_repeat_add(s: Seq<char>, a: nat, b: nat)
    ensures
        repeat_seq(s, a + b) == repeat_seq(s, a) + repeat_seq(s, b),
    decreases b,
{
    if b == 0 {
        assert(repeat_seq(s, a) + repeat_seq(s, 0) =~= repeat_seq(s, a));
    } else {
        lemma_repeat_add(s, a, (b - 1) as nat);
        assert(repeat_seq(s, a + b) =~= repeat_seq(s, a) + repeat_seq(s, b));
    }
}

/// Repetition composes multiplicatively: repeating an `m`-fold repetition
/// `n` times is an `n * m`-fold repetition.
pub proof fn lemma_repeat_mul(s: Seq<char>, m: nat, n: nat)
    ensures
        repeat_seq(repeat_seq(s, m), n) == repeat_seq(s, n * m),
    decreases n,
{
    if n == 0 {
    } else {
        let k: nat = (n - 1) as nat;
        lemma_repeat_mul(s, m, k);
        lemma_repeat_add(s, k * m, m);
        assert(k * m + m == n * m) by (nonlinear_arith)
            requires
                k == n - 1,
                n >= 1,
        ;
        assert(repeat_seq(repeat_seq(s, m), n) == repeat_seq(repeat_seq(s, m), k) + repeat_seq(
            s,
            m,
        ));
    }
}

/// Nested repeated nodes compose multiplicatively: repeating a node `m`
/// times and repeating the result `n` times values to the child's value
/// repeated exactly `n * m` times.
pub proof fn lemma_repeated_composes(child: TextV, m: nat, n: nat)
    ensures
        value_of(TextV::Repeated(Box::new(TextV::Repeated(Box::new(child), m)), n)) == repeat_seq(
            value_of(child),
            n * m,
        ),
{
    let s = value_of(child);
    let inner = TextV::Repeated(Box::new(child), m);
    assert(value_of(inner) == repeat_seq(s, m));
    assert(value_of(TextV::Repeated(Box::new(inner), n)) == repeat_seq(repeat_seq(s, m), n));
    lemma_repeat_mul(s, m, n);
}

/// Nodes standing for the same tree flatten to the same string; in
/// particular a deep copy, which stands for its original's tree, yields
/// the value its original yields.
pub proof fn lemma_same_tree_same_value(a: TextV, b: TextV)
    requires
        a == b,
    ensures
        value_of(a) == value_of(b),
{
}

/// Evaluation is pure: any two results of flattening the same node are
/// identical.
pub proof fn lemma_value_deterministic(t: TextV, r1: Seq<char>, r2: Seq<char>)
    requires
        r1 == value_of(t),
        r2 == value_of(t),
    ensures
        r1 == r2,
{
}

/// A text node as a tagged variant: a plain leaf, a repeated wrapper with
/// its count, or a joined combiner with its separator. A node exclusively
/// owns its children, so the tree has no sharing and no cycles.
pub enum Text {
    Plain(String),
    Repeated(Box<Text>, usize),
    Joined(Vec<Box<Text>>, String),
}

/// The tree a text node stands for.
pub open spec fn text_view(t: Text) -> TextV
    decreases t, 0nat,
{
    match t {
        Text::Plain(s) => TextV::Plain(s@),
        Text::Repeated(child, n) => TextV::Repeated(Box::new(text_view(*child)), n as nat),
        Text::Joined(children, sep) => TextV::Joined(text_views(children@), sep@),
    }
}

/// The trees a sequence of text nodes stands for, in order.
pub open spec fn text_views(ts: Seq<Box<Text>>) -> Seq<TextV>
    decreases ts, ts.len(),
{
    if ts.len() == 0 {
        Seq::empty()
    } else {
        seq![text_view(*ts[0])] + text_views(ts.subrange(1, ts.len() as int))
    }
}

impl View for Text {
    type V = TextV;

    open spec fn view(&self) -> TextV {
        text_view(*self)
    }
}

/// One tree per node: `text_views` keeps the length of its input.
pub proof fn lemma_text_views_len(ts: Seq<Box<Text>>)
    ensures
        text_views(ts).len() == ts.len(),
    decreases ts.len(),
{
    if ts.len() > 0 {
        lemma_text_views_len(ts.subrange(1, ts.len() as int));
    }
}

/// Appending a node appends its tree: `text_views` distributes over `push`.
pub proof fn lemma_text_views_push(ts: Seq<Box<Text>>, t: Box<Text>)
    ensures
        text_views(ts.push(t)) == text_views(ts).push(text_view(*t)),
    decreases ts.len(),
{
    if ts.len() == 0 {
        assert(ts.push(t)[0] == t);
        assert(ts.push(t).subrange(1, 1) =~= Seq::<Box<Text>>::empty());
        assert(text_views(ts.push(t)) == seq![text_view(*t)] + text_views(
            Seq::<Box<Text>>::empty(),
        ));
        assert(text_views(ts.push(t)) =~= text_views(ts).push(text_view(*t)));
    } else {
        let tail = ts.subrange(1, ts.len() as int);
        lemma_text_views_push(tail, t);
        assert(ts.push(t)[0] == ts[0]);
        assert(ts.push(t).subrange(1, ts.len() as int + 1) =~= tail.push(t));
        assert(text_views(ts.push(t)) == seq![text_view(*ts[0])] + text_views(tail).push(
            text_view(*t),
        ));
        assert(text_views(ts.push(t)) =~= text_views(ts).push(text_view(*t)));
    }
}

impl Text {
    /// The flattened string of the node: its content for a plain leaf, the
    /// child's value repeated for a repeated node, and the children's
    /// values joined with the separator for a joined node.
    pub fn value(&self) -> (r: String)
        ensures
            r@ == value_of(self@),
        decreases *self,
    {
        match self {
            Text::Plain(t) => t.clone(),
            Text::Repeated(elem, n) => {
                let child = elem.value();
                repeat_string(child.as_str(), *n)
            },
            Text::Joined(data, sep) => {
                let mut out = String::new();
                let mut i: usize = 0;
                proof {
                    lemma_values_of_len(text_views(data@));
                    lemma_text_views_len(data@);
                }
                while i < data.len()
                    invariant
                        i <= data@.len(),
                        out@ == join_seqs(
                            values_of(text_views(data@.subrange(0, i as int))),
                            sep@,
                        ),
                        *self == Text::Joined(*data, *sep),
                    decreases data@.len() - i,
                {
                    if i > 0 {
                        out.append(sep.as_str());
                    }
                    proof {
                        assert(*self is Joined);
                        assert(self->Joined_0 == *data);
                        assert(decreases_to!(*self => self->Joined_0));
                        assert(decreases_to!(*data => data@[i as int]));
                    }
                    let part = data[i].value();
                    out.append(part.as_str());
                    proof {
                        let prev = data@.subrange(0, i as int);
                        lemma_text_views_len(prev);
                        lemma_values_of_len(text_views(prev));
                        lemma_text_views_push(prev, data@[i as int]);
                        lemma_values_of_push(text_views(prev), text_view(*data@[i as int]));
                        lemma_join_push(
                            values_of(text_views(prev)),
                            sep@,
                            value_of(text_view(*data@[i as int])),
                        );
                        assert(data@.subrange(0, i as int + 1) =~= prev.push(data@[i as int]));
                        assert(out@ =~= join_seqs(
                            values_of(text_views(data@.subrange(0, i as int + 1))),
                            sep@,
                        ));
                    }
                    i = i + 1;
                }
                proof {
                    assert(data@.subrange(0, data@.len() as int) =~= data@);
                }
                out
            },
        }
    }

    /// A deep structural copy of the node: the copy owns its entire
    /// subtree and stands for the same tree as the original.
    pub fn duplicate(&self) -> (r: Text)
        ensures
            r@ == self@,
        decreases *self,
    {
        match self {
            Text::Plain(s) => Text::Plain(s.clone()),
            Text::Repeated(elem, n) => Text::Repeated(Box::new(elem.duplicate()), *n),
            Text::Joined(data, sep) => {
                let mut copies: Vec<Box<Text>> = Vec::new();
                let mut i: usize = 0;
                while i < data.len()
                    invariant
                        i <= data@.len(),
                        text_views(copies@) == text_views(data@.subrange(0, i as int)),
                        *self == Text::Joined(*data, *sep),
                    decreases data@.len() - i,
                {
                    proof {
                        assert(*self is Joined);
                        assert(self->Joined_0 == *data);
                        assert(decreases_to!(*self => self->Joined_0));
                        assert(decreases_to!(*data => data@[i as int]));
                    }
                    let copy = data[i].duplicate();
                    proof {
                        let prev = data@.subrange(0, i as int);
                        lemma_text_views_push(copies@, Box::new(copy));
                        lemma_text_views_push(prev, data@[i as int]);
                        assert(data@.subrange(0, i as int + 1) =~= prev.push(data@[i as int]));
                    }
                    copies.push(Box::new(copy));
                    i = i + 1;
                }
                proof {
                    assert(data@.subrange(0, data@.len() as int) =~= data@);
                }
                Text::Joined(copies, sep.clone())
            },
        }
    }
}

/// Renders `s` concatenated with itself `n` times.
pub fn repeat_string(s: &str, n: usize) -> (r: String)
    ensures
        r@ == repeat_seq(s@, n as nat),
{
    let mut out = String::new();
    let mut i: usize = 0;
    while i < n
        invariant
            i <= n,
            out@ == repeat_seq(s@, i as nat),
        decreases n - i,
    {
        out.append(s);
        i = i + 1;
    }
    out
}

} // verus!
