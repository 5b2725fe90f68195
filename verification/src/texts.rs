//! The text-composition tree a second way: one struct per node kind,
//! gathered under a closed enum. Both families stand for the same
//! mathematical tree and flatten the same way.

use crate::text::join_seqs;
use crate::text::lemma_join_push;
use crate::text::lemma_values_of_len;
use crate::text::lemma_values_of_push;
use crate::text::repeat_string;
use crate::text::value_of;
use crate::text::values_of;
use crate::text::TextV;
use vstd::prelude::*;

verus! {

/// A plain text leaf.
pub struct PlainText {
    pub chars: String,
}

/// A node repeated a fixed number of times.
pub struct RepeatedText {
    pub text: Box<Texts>,
    pub n: usize,
}

/// Nodes joined with a separator between consecutive values.
pub struct JoinedText {
    pub data: Vec<Texts>,
    pub sep: PlainText,
}

/// Any node of this family.
pub enum Texts {
    Plain(PlainText),
    Repeated(RepeatedText),
    Joined(JoinedText),
}

/// The tree a repeated node stands for.
pub open spec fn repeated_view(r: RepeatedText) -> TextV
    decreases r, 1nat,
{
    TextV::Repeated(Box::new(texts_view(*r.text)), r.n as nat)
}

/// The tree a joined node stands for.
pub open spec fn joined_view(j: JoinedText) -> TextV
    decreases j, 1nat,
{
    TextV::Joined(texts_views(j.data@), j.sep.chars@)
}

/// The tree any node of this family stands for.
pub open spec fn texts_view(t: Texts) -> TextV
    decreases t, 2nat,
{
    match t {
        Texts::Plain(p) => TextV::Plain(p.chars@),
        Texts::Repeated(r) => repeated_view(r),
        Texts::Joined(j) => joined_view(j),
    }
}

/// The trees a sequence of nodes stands for, in order.
pub open spec fn texts_views(ts: Seq<Texts>) -> Seq<TextV>
    decreases ts, ts.len(),
{
    if ts.len() == 0 {
        Seq::empty()
    } else {
        seq![texts_view(ts[0])] + texts_views(ts.subrange(1, ts.len() as int))
    }
}

impl View for PlainText {
    type V = Seq<char>;

    open spec fn view(&self) -> Seq<char> {
        self.chars@
    }
}

impl View for RepeatedText {
    type V = TextV;

    open spec fn view(&self) -> TextV {
        repeated_view(*self)
    }
}

impl View for JoinedText {
    type V = TextV;

    open spec fn view(&self) -> TextV {
        joined_view(*self)
    }
}

impl View for Texts {
    type V = TextV;

    open spec fn view(&self) -> TextV {
        texts_view(*self)
    }
}

/// One tree per node: `texts_views` keeps the length of its input.
pub proof fn lemma_texts_views_len(ts: Seq<Texts>)
    ensures
        texts_views(ts).len() == ts.len(),
    decreases ts.len(),
{
    if ts.len() > 0 {
        lemma_texts_views_len(ts.subrange(1, ts.len() as int));
    }
}

/// Appending a node appends its tree: `texts_views` distributes over `push`.
pub proof fn lemma_texts_views_push(ts: Seq<Texts>, t: Texts)
    ensures
        texts_views(ts.push(t)) == texts_views(ts).push(texts_view(t)),
    decreases ts.len(),
{
    if ts.len() == 0 {
        assert(ts.push(t)[0] == t);
        assert(ts.push(t).subrange(1, 1) =~= Seq::<Texts>::empty());
        assert(texts_views(ts.push(t)) == seq![texts_view(t)] + texts_views(Seq::<Texts>::empty()));
        assert(texts_views(ts.push(t)) =~= texts_views(ts).push(texts_view(t)));
    } else {
        let tail = ts.subrange(1, ts.len() as int);
        lemma_texts_views_push(tail, t);
        assert(ts.push(t)[0] == ts[0]);
        assert(ts.push(t).subrange(1, ts.len() as int + 1) =~= tail.push(t));
        assert(texts_views(ts.push(t)) == seq![texts_view(ts[0])] + texts_views(tail).push(
            texts_view(t),
        ));
        assert(texts_views(ts.push(t)) =~= texts_views(ts).push(texts_view(t)));
    }
}

impl PlainText {
    /// A plain leaf holding the given text.
    pub fn from(text: &str) -> (t: PlainText)
        ensures
            t@ == text@,
    {
        PlainText { chars: text.to_owned() }
    }

    /// The leaf's content, unchanged.
    pub fn value(&self) -> (r: String)
        ensures
            r@ == self@,
    {
        self.chars.clone()
    }

    /// An independent copy of the leaf.
    pub fn duplicate(&self) -> (r: PlainText)
        ensures
            r@ == self@,
    {
        PlainText { chars: self.chars.clone() }
    }

    /// An independent copy of the leaf as a node of the family.
    pub fn clone_box(&self) -> (r: Texts)
        ensures
            r@ == TextV::Plain(self@),
    {
        Texts::Plain(self.duplicate())
    }
}

impl RepeatedText {
    /// A node repeating `text` exactly `num` times.
    pub fn with_parts(text: Texts, num: usize) -> (r: RepeatedText)
        ensures
            r@ == TextV::Repeated(Box::new(text@), num as nat),
    {
        RepeatedText { text: Box::new(text), n: num }
    }

    /// The child's value concatenated with itself `n` times.
    pub fn value(&self) -> (r: String)
        ensures
            r@ == value_of(self@),
        decreases *self, 0nat,
    {
        proof {
            assert(decreases_to!(*self => self.text));
        }
        let child = self.text.value();
        repeat_string(child.as_str(), self.n)
    }

    /// An independent deep copy of the node.
    pub fn duplicate(&self) -> (r: RepeatedText)
        ensures
            r@ == self@,
        decreases *self, 0nat,
    {
        proof {
            assert(decreases_to!(*self => self.text));
        }
        RepeatedText { text: Box::new(self.text.duplicate()), n: self.n }
    }

    /// An independent deep copy as a node of the family.
    pub fn clone_box(&self) -> (r: Texts)
        ensures
            r@ == self@,
        decreases *self, 2nat,
    {
        Texts::Repeated(self.duplicate())
    }
}

impl JoinedText {
    /// A node joining copies of the given nodes with the given separator.
    pub fn with_parts(data: &Vec<Texts>, sep: &PlainText) -> (r: JoinedText)
        ensures
            r@ == TextV::Joined(texts_views(data@), sep@),
    {
        let mut copies: Vec<Texts> = Vec::new();
        let mut i: usize = 0;
        while i < data.len()
            invariant
                i <= data@.len(),
                texts_views(copies@) == texts_views(data@.subrange(0, i as int)),
            decreases data@.len() - i,
        {
            let copy = data[i].duplicate();
            proof {
                let prev = data@.subrange(0, i as int);
                lemma_texts_views_push(copies@, copy);
                lemma_texts_views_push(prev, data@[i as int]);
                assert(data@.subrange(0, i as int + 1) =~= prev.push(data@[i as int]));
            }
            copies.push(copy);
            i = i + 1;
        }
        proof {
            assert(data@.subrange(0, data@.len() as int) =~= data@);
        }
        JoinedText { data: copies, sep: sep.duplicate() }
    }

    /// The children's values joined with the separator between consecutive
    /// values: none before the first or after the last.
    pub fn value(&self) -> (r: String)
        ensures
            r@ == value_of(self@),
        decreases *self, 0nat,
    {
        let data = &self.data;
        let mut out = String::new();
        let mut i: usize = 0;
        proof {
            lemma_texts_views_len(data@);
            lemma_values_of_len(texts_views(data@));
        }
        while i < data.len()
            invariant
                i <= data@.len(),
                out@ == join_seqs(values_of(texts_views(data@.subrange(0, i as int))), self.sep@),
                *data == self.data,
            decreases data@.len() - i,
        {
            if i > 0 {
                out.append(self.sep.chars.as_str());
            }
            proof {
                assert(decreases_to!(*self => self.data));
                assert(decreases_to!(self.data => self.data@[i as int]));
            }
            let part = data[i].value();
            out.append(part.as_str());
            proof {
                let prev = data@.subrange(0, i as int);
                lemma_texts_views_len(prev);
                lemma_values_of_len(texts_views(prev));
                lemma_texts_views_push(prev, data@[i as int]);
                lemma_values_of_push(texts_views(prev), texts_view(data@[i as int]));
                lemma_join_push(
                    values_of(texts_views(prev)),
                    self.sep@,
                    value_of(texts_view(data@[i as int])),
                );
                assert(data@.subrange(0, i as int + 1) =~= prev.push(data@[i as int]));
                assert(out@ =~= join_seqs(
                    values_of(texts_views(data@.subrange(0, i as int + 1))),
                    self.sep@,
                ));
            }
            i = i + 1;
        }
        proof {
            assert(data@.subrange(0, data@.len() as int) =~= data@);
        }
        out
    }

    /// An independent deep copy of the node.
    pub fn duplicate(&self) -> (r: JoinedText)
        ensures
            r@ == self@,
        decreases *self, 0nat,
    {
        let mut copies: Vec<Texts> = Vec::new();
        let mut i: usize = 0;
        while i < self.data.len()
            invariant
                i <= self.data@.len(),
                texts_views(copies@) == texts_views(self.data@.subrange(0, i as int)),
            decreases self.data@.len() - i,
        {
            proof {
                assert(decreases_to!(*self => self.data));
                assert(decreases_to!(self.data => self.data@[i as int]));
            }
            let copy = self.data[i].duplicate();
            proof {
                let prev = self.data@.subrange(0, i as int);
                lemma_texts_views_push(copies@, copy);
                lemma_texts_views_push(prev, self.data@[i as int]);
                assert(self.data@.subrange(0, i as int + 1) =~= prev.push(self.data@[i as int]));
            }
            copies.push(copy);
            i = i + 1;
        }
        proof {
            assert(self.data@.subrange(0, self.data@.len() as int) =~= self.data@);
        }
        JoinedText { data: copies, sep: self.sep.duplicate() }
    }

    /// An independent deep copy as a node of the family.
    pub fn clone_box(&self) -> (r: Texts)
        ensures
            r@ == self@,
        decreases *self, 2nat,
    {
        Texts::Joined(self.duplicate())
    }
}

impl Texts {
    /// The flattened string of the node.
    pub fn value(&self) -> (r: String)
        ensures
            r@ == value_of(self@),
        decreases *self, 1nat,
    {
        match self {
            Texts::Plain(p) => p.value(),
            Texts::Repeated(r) => r.value(),
            Texts::Joined(j) => j.value(),
        }
    }

    /// An independent deep copy of the node.
    pub fn duplicate(&self) -> (r: Texts)
        ensures
            r@ == self@,
        decreases *self, 1nat,
    {
        match self {
            Texts::Plain(p) => Texts::Plain(p.duplicate()),
            Texts::Repeated(r) => Texts::Repeated(r.duplicate()),
            Texts::Joined(j) => Texts::Joined(j.duplicate()),
        }
    }
}

} // verus!
