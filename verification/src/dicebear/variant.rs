//! Which of a component's variants a draw may pick, under the avatar's
//! animation option.

use vstd::prelude::*;

use super::{speed_name, Animation, Speed};
use crate::text::str_eq;

verus! {

/// The variants a component's draw picks from.
#[derive(Debug, Clone, Copy, PartialEq, Eq, Structural)]
pub enum VariantPool {
    /// A weighted pick over every variant.
    All,
    /// A weighted pick over the variants tagged `animation`.
    Animated,
    /// No draw: the variant at this index, or none when the component has no
    /// variant of the requested speed.
    Fixed(Option<usize>),
}

/// The index of the first name equal to `name`, if any.
pub open spec fn first_named(names: Seq<&str>, name: Seq<char>) -> Option<usize> {
    if exists|i: int| 0 <= i < names.len() && names[i]@ == name {
        Some(
            (choose|i: int|
                0 <= i < names.len() && names[i]@ == name && forall|j: int|
                    0 <= j < i ==> names[j]@ != name) as usize,
        )
    } else {
        None
    }
}

/// The pool of a component named `component_name` whose variants have the
/// names `names` and animation tags `animated`: without animation every
/// variant; with random animation the animated variants when there are any;
/// with a fixed speed, the `animation` component shows the variant named
/// after the speed, and any other component draws from every variant.
pub open spec fn variant_pool_spec(
    animation: Animation,
    component_name: Seq<char>,
    names: Seq<&str>,
    animated: Seq<bool>,
) -> VariantPool {
    match animation {
        Animation::Off => VariantPool::All,
        Animation::Random => if exists|i: int| 0 <= i < animated.len() && animated[i] {
            VariantPool::Animated
        } else {
            VariantPool::All
        },
        Animation::Fixed(speed) => if component_name == "animation"@ {
            VariantPool::Fixed(first_named(names, speed_name(speed)))
        } else {
            VariantPool::All
        },
    }
}

/// The pool a component's variant is drawn from (see
/// [`variant_pool_spec`]).
pub fn variant_pool(animation: Animation, component_name: &str, names: &Vec<&str>, animated: &Vec<bool>) -> (p: VariantPool)
    ensures
        p == variant_pool_spec(animation, component_name@, names@, animated@),
{
    match animation {
        Animation::Off => VariantPool::All,
        Animation::Random => {
            let mut i: usize = 0;
            while i < animated.len()
                invariant
                    animation == Animation::Random,
                    i <= animated@.len(),
                    forall|j: int| 0 <= j < i ==> !animated@[j],
                decreases animated@.len() - i,
            {
                if animated[i] {
                    assert(animated@[i as int]);
                    return VariantPool::Animated;
                }
                i = i + 1;
            }
            VariantPool::All
        },
        Animation::Fixed(speed) => {
            if !str_eq(component_name, "animation") {
                return VariantPool::All;
            }
            let wanted = speed.as_str();
            let mut i: usize = 0;
            while i < names.len()
                invariant
                    animation == Animation::Fixed(speed),
                    component_name@ == "animation"@,
                    i <= names@.len(),
                    wanted@ == speed_name(speed),
                    forall|j: int| 0 <= j < i ==> names@[j]@ != wanted@,
                decreases names@.len() - i,
            {
                if str_eq(names[i], wanted) {
                    proof {
                        assert(0 <= i < names@.len() && names@[i as int]@ == wanted@);
                        assert(forall|j: int| 0 <= j < i ==> names@[j]@ != wanted@);
                        let k = choose|k: int|
                            0 <= k < names@.len() && names@[k]@ == wanted@ && forall|j: int|
                                0 <= j < k ==> names@[j]@ != wanted@;
                        if k < i {
                            assert(names@[k]@ != wanted@);
                        } else if k > i {
                            assert(names@[i as int]@ != wanted@);
                        }
                        assert(first_named(names@, speed_name(speed)) == Some(i));
                    }
                    return VariantPool::Fixed(Some(i));
                }
                i = i + 1;
            }
            VariantPool::Fixed(None)
        },
    }
}

} // verus!
