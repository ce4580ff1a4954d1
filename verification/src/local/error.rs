//! Why a configuration is refused.

use vstd::prelude::*;

use crate::text::{views, Text};
use crate::types::policy::first_of;

verus! {

/// Why a configuration is refused.
#[derive(Debug, PartialEq, Eq)]
pub struct ConfigError {
    pub message: String,
}

impl View for ConfigError {
    type V = Text;

    open spec fn view(&self) -> Text {
        self.message@
    }
}

impl ConfigError {
    /// The refusal with the given message.
    pub fn new(message: &str) -> (r: Self)
        ensures
            r@ == message@,
    {
        ConfigError { message: message.to_owned() }
    }

    /// The refusal with the given message.
    pub fn of(message: String) -> (r: Self)
        ensures
            r@ == message@,
    {
        ConfigError { message }
    }
}

/// A value that was loaded or compiled from part of a configuration, or why it could not be.
pub type Loaded<T> = Result<std::sync::Arc<T>, String>;

/// Why a value could not be loaded, if it was asked for and could not be.
pub open spec fn load_refusal<T>(value: Option<Loaded<T>>) -> Option<Text> {
    match value {
        Some(Err(e)) => Some(e@),
        _ => None,
    }
}

/// The value that was loaded, if it was asked for.
pub open spec fn loaded<T>(value: Option<Loaded<T>>) -> Option<std::sync::Arc<T>> {
    match value {
        Some(Ok(v)) => Some(v),
        _ => None,
    }
}

/// The value that was loaded, if it was asked for. Refuses one that could not be.
pub fn load<T>(value: Option<Loaded<T>>) -> (r: Result<Option<std::sync::Arc<T>>, ConfigError>)
    ensures
        match r {
            Ok(v) => load_refusal(value) is None && v == loaded(value),
            Err(e) => load_refusal(value) == Some(e@),
        },
{
    match value {
        Some(Ok(v)) => Ok(Some(v)),
        Some(Err(e)) => Err(ConfigError::of(e)),
        None => Ok(None),
    }
}

/// The list of an optional value.
pub open spec fn one<V>(value: Option<V>) -> Seq<V> {
    match value {
        Some(v) => seq![v],
        None => Seq::empty(),
    }
}

/// Adds a value to a list, if there is one.
pub fn push_opt<T>(list: &mut Vec<T>, value: Option<T>)
    ensures
        final(list)@ == old(list)@ + one(value),
{
    match value {
        Some(v) => {
            let ghost before = list@;
            list.push(v);
            assert(list@ =~= before + one(Some(v)));
        },
        None => {
            assert(list@ =~= list@ + one(None::<T>));
        },
    }
}

/// Adds values to a list.
pub fn extend<T>(list: &mut Vec<T>, values: Vec<T>)
    ensures
        final(list)@ == old(list)@ + values@,
{
    let mut values = values;
    list.append(&mut values);
}

/// Adds a value to a list of which only what it holds matters, if there is one.
pub fn add_opt<T: View>(list: &mut Vec<T>, value: Option<T>)
    ensures
        views(final(list)@) == views(old(list)@) + one(crate::text::opt_view(value)),
        final(list)@.len() <= old(list)@.len() + 1,
{
    let ghost before = list@;
    push_opt(list, value);
    proof {
        crate::text::lemma_views(before, one(value));
        assert(views(one(value)) =~= one(crate::text::opt_view(value)));
    }
}

/// The first refusal of the items of a list, if there is one. `refusal` tells why the item at a place
/// is refused.
pub open spec fn first_refusal<T>(
    items: Seq<T>,
    refusal: spec_fn(int, T) -> Option<Text>,
) -> Option<Text>
    decreases items.len(),
{
    if items.len() == 0 {
        None
    } else {
        first_of(
            first_refusal(items.drop_last(), refusal),
            refusal(items.len() - 1, items.last()),
        )
    }
}

/// The first refusal of a list is found by going through it.
pub proof fn lemma_first_refusal<T>(
    items: Seq<T>,
    refusal: spec_fn(int, T) -> Option<Text>,
    n: int,
)
    requires
        0 <= n < items.len(),
        first_refusal(items.take(n), refusal) is None,
    ensures
        first_refusal(items.take(n + 1), refusal) == refusal(n, items[n]),
        refusal(n, items[n]) is Some ==> first_refusal(items, refusal) == refusal(n, items[n]),
{
    let next = items.take(n + 1);
    assert(next.drop_last() =~= items.take(n));
    assert(next.last() == items[n]);
    if refusal(n, items[n]) is Some {
        lemma_refusal_stays(items, refusal, n + 1);
    }
}

proof fn lemma_refusal_stays<T>(
    items: Seq<T>,
    refusal: spec_fn(int, T) -> Option<Text>,
    n: int,
)
    requires
        0 <= n <= items.len(),
        first_refusal(items.take(n), refusal) is Some,
    ensures
        first_refusal(items, refusal) == first_refusal(items.take(n), refusal),
    decreases items.len(),
{
    if n < items.len() {
        assert(items.drop_last().take(n) =~= items.take(n));
        lemma_refusal_stays(items.drop_last(), refusal, n);
    } else {
        assert(items.take(n) =~= items);
    }
}

/// The values that the items of a list come to, one list for each item, one after another.
pub open spec fn gathered<T, V>(items: Seq<T>, values: spec_fn(int, T) -> Seq<V>) -> Seq<V>
    decreases items.len(),
{
    if items.len() == 0 {
        Seq::empty()
    } else {
        gathered(items.drop_last(), values) + values(items.len() - 1, items.last())
    }
}

/// The values of a longer list are those of the shorter one and of the next item.
pub proof fn lemma_gathered<T, V>(items: Seq<T>, values: spec_fn(int, T) -> Seq<V>, n: int)
    requires
        0 <= n < items.len(),
    ensures
        gathered(items.take(n + 1), values) == gathered(items.take(n), values) + values(
            n,
            items[n],
        ),
{
    let next = items.take(n + 1);
    assert(next.drop_last() =~= items.take(n));
    assert(next.last() == items[n]);
}

} // verus!
