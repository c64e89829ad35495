//! A list of values, for hosts to carry in their objects.

use crate::engine::stack::value_views;
use crate::engine::value::{shown, NativeObject, Value};
use vstd::prelude::*;
use vstd::string::StringExecFns;

verus! {

/// A list of values.
#[derive(Debug)]
pub struct List<N>(pub Vec<Value<N>>);

/// The texts put one after the other, with `, ` between them.
pub open spec fn separated(texts: Seq<Seq<char>>) -> Seq<char>
    decreases texts.len(),
{
    if texts.len() == 0 {
        Seq::empty()
    } else if texts.len() == 1 {
        texts[0]
    } else {
        separated(texts.drop_last()) + ", "@ + texts.last()
    }
}

/// The text that shows a list whose items are shown by `texts`.
pub open spec fn listed(texts: Seq<Seq<char>>) -> Seq<char> {
    "["@ + separated(texts) + "]"@
}

impl<N: NativeObject> List<N> {
    /// A text that shows the list: the texts that show its items, separated
    /// by `, `, in square brackets. The host says how a number is shown.
    pub fn repr<F: Fn(u64) -> String>(&self, show_num: &F) -> (r: String)
        requires
            forall|bits: u64| call_requires(*show_num, (bits,)),
        ensures
            exists|texts: Seq<Seq<char>>|
                texts.len() == self.0@.len() && (forall|i: int|
                    0 <= i < texts.len() ==> shown(self.0@[i]@, *show_num, #[trigger] texts[i]))
                    && r@ == listed(texts),
    {
        let mut out = String::from_str("[");
        let ghost mut texts: Seq<Seq<char>> = Seq::empty();
        let mut i: usize = 0;
        assert(out@ =~= "["@ + separated(texts));
        while i < self.0.len()
            invariant
                i <= self.0@.len(),
                texts.len() == i,
                forall|bits: u64| call_requires(*show_num, (bits,)),
                forall|j: int|
                    0 <= j < texts.len() ==> shown(self.0@[j]@, *show_num, #[trigger] texts[j]),
                out@ == "["@ + separated(texts),
            decreases self.0@.len() - i,
        {
            if i > 0 {
                out.append(", ");
            }
            let item = self.0[i].data_ref().repr(show_num);
            out.append(item.as_str());
            proof {
                let before = texts;
                texts = texts.push(item@);
                assert(texts.drop_last() =~= before);
                if i > 0 {
                    assert(out@ =~= "["@ + (separated(before) + ", "@ + item@));
                } else {
                    assert(out@ =~= "["@ + item@);
                }
            }
            i = i + 1;
        }
        out.append("]");
        assert(out@ == listed(texts));
        out
    }

    /// A list of the same values. The values are shared, not copied.
    pub fn cloned(&self) -> (r: Self)
        ensures
            value_views(r.0@) == value_views(self.0@),
    {
        let mut items: Vec<Value<N>> = Vec::new();
        let mut i: usize = 0;
        while i < self.0.len()
            invariant
                i <= self.0@.len(),
                items@.len() == i,
                forall|j: int| 0 <= j < i ==> #[trigger] items@[j] == self.0@[j],
            decreases self.0@.len() - i,
        {
            items.push(self.0[i].clone());
            i = i + 1;
        }
        assert(value_views(items@) =~= value_views(self.0@));
        List(items)
    }
}

} // verus!
