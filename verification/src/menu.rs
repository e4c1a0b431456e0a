//! Moving through a list of choices with the keyboard.

use vstd::prelude::*;

verus! {

/// A key as far as a list of choices tells keys apart.
#[derive(Clone, Copy, Debug, PartialEq, Eq, Structural)]
pub enum MenuKey {
    Up,
    Down,
    Enter,
    Escape,
    Other,
}

/// What a key does to a list of choices.
#[derive(Clone, Copy, Debug, PartialEq, Eq, Structural)]
pub enum MenuStep {
    /// The list stays open with this choice marked.
    Marked(usize),
    /// This choice was made.
    Chosen(usize),
    /// The list was left without a choice.
    Cancelled,
}

/// What `key` does when the choice `marked` of `count` is marked: the arrows
/// move the mark by one and stop at the ends of the list, Enter takes the
/// marked choice, Escape leaves, every other key changes nothing.
pub open spec fn step_of(marked: usize, count: usize, key: MenuKey) -> MenuStep {
    match key {
        MenuKey::Up => MenuStep::Marked(
            if marked > 0 {
                (marked - 1) as usize
            } else {
                marked
            },
        ),
        MenuKey::Down => MenuStep::Marked(
            if marked + 1 < count {
                (marked + 1) as usize
            } else {
                marked
            },
        ),
        MenuKey::Enter => MenuStep::Chosen(marked),
        MenuKey::Escape => MenuStep::Cancelled,
        MenuKey::Other => MenuStep::Marked(marked),
    }
}

/// Decides what a key does to a list of `count` choices of which `marked` is
/// marked.
pub fn menu_step(marked: usize, count: usize, key: MenuKey) -> (step: MenuStep)
    requires
        marked < count,
    ensures
        step == step_of(marked, count, key),
        step matches MenuStep::Marked(next) ==> next < count,
        step matches MenuStep::Chosen(choice) ==> choice < count,
{
    match key {
        MenuKey::Up => MenuStep::Marked(
            if marked > 0 {
                marked - 1
            } else {
                marked
            },
        ),
        MenuKey::Down => MenuStep::Marked(
            if marked < count - 1 {
                marked + 1
            } else {
                marked
            },
        ),
        MenuKey::Enter => MenuStep::Chosen(marked),
        MenuKey::Escape => MenuStep::Cancelled,
        MenuKey::Other => MenuStep::Marked(marked),
    }
}

} // verus!
