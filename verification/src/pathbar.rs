//! One frame of the path bar while its text is edited: completion cycling, and whether the
//! edit ends.
use vstd::prelude::*;

use crate::explorer::PathBarEditState;
use crate::paths::{applied_completion_of, apply_path_completion};

verus! {

/// What the user did to the path bar in one frame. The keys count only while the path bar
/// has the keyboard; `edited` is whether the typing of this frame changed the text;
/// `clicked` is the completion clicked in the menu; `leaving` is a click elsewhere, or the
/// loss of focus, with no menu open.
#[derive(Clone, Copy, Debug, PartialEq, Eq, Structural)]
pub struct PathBarInput {
    pub edited: bool,
    pub escape: bool,
    pub enter: bool,
    pub tab: bool,
    pub arrow_down: bool,
    pub arrow_up: bool,
    pub clicked: Option<usize>,
    pub leaving: bool,
}

/// What the path bar asks of the explorer after a frame.
#[derive(Clone, Copy, Debug, PartialEq, Eq, Structural)]
pub enum PathBarAction {
    Stay,
    Cancel,
    Commit,
}

/// The text, completion index and action after one frame, from the text `text` and index
/// `idx`, with the completions `cs` of the text as it was before the frame's typing:
/// an index past the completions starts over at 0, and so does any change of the text;
/// Escape cancels and Enter commits; Tab applies the selected completion and moves to the
/// next one; down and up move through the completions, wrapping around; a clicked
/// completion is applied and selected; leaving the bar commits.
pub open spec fn path_bar_step(
    text: Seq<char>,
    idx: int,
    cs: Seq<Seq<char>>,
    home: Seq<char>,
    k: PathBarInput,
) -> (Seq<char>, int, PathBarAction) {
    let n = cs.len() as int;
    let i0 = if idx >= n {
        0
    } else {
        idx
    };
    let i1 = if k.edited {
        0
    } else {
        i0
    };
    if k.escape {
        (text, i1, PathBarAction::Cancel)
    } else if k.enter {
        (text, i1, PathBarAction::Commit)
    } else {
        let t2 = if k.tab && n > 0 {
            applied_completion_of(text, cs[i1 % n], home)
        } else {
            text
        };
        let i2 = if k.tab && n > 0 {
            (i1 % n + 1) % n
        } else {
            i1
        };
        let i3 = if n > 0 && k.arrow_down {
            (i2 + 1) % n
        } else if n > 0 && k.arrow_up {
            if i2 >= 1 {
                i2 - 1
            } else {
                n - 1
            }
        } else {
            i2
        };
        match k.clicked {
            Some(j) if j < n => (applied_completion_of(t2, cs[j as int], home), j as int, PathBarAction::Stay),
            _ => (t2, i3, if k.leaving {
                PathBarAction::Commit
            } else {
                PathBarAction::Stay
            }),
        }
    }
}

/// Up moves the highlight to the previous completion, wrapping from the first to the last,
/// when no typing, Tab or click comes in the same frame; the text is left as it was. Down
/// followed by Up, and Up followed by Down, come back to the same completion.
pub proof fn law_arrow_up_selects_previous_completion(
    text: Seq<char>,
    i: int,
    cs: Seq<Seq<char>>,
    home: Seq<char>,
    up: PathBarInput,
    down: PathBarInput,
)
    requires
        0 <= i < cs.len(),
        up.arrow_up && !up.arrow_down && !up.edited && !up.escape && !up.enter && !up.tab,
        up.clicked is None,
        down.arrow_down && !down.edited && !down.escape && !down.enter && !down.tab,
        down.clicked is None,
    ensures
        path_bar_step(text, i, cs, home, up).0 == text,
        path_bar_step(text, i, cs, home, up).1 == (i + cs.len() - 1) % (cs.len() as int),
        ({
            let s = path_bar_step(text, i, cs, home, down);
            path_bar_step(s.0, s.1, cs, home, up).1 == i
        }),
        ({
            let s = path_bar_step(text, i, cs, home, up);
            path_bar_step(s.0, s.1, cs, home, down).1 == i
        }),
{
    let n = cs.len() as int;
    if i >= 1 {
        vstd::arithmetic::div_mod::lemma_mod_add_multiples_vanish(i - 1, n);
        vstd::arithmetic::div_mod::lemma_small_mod((i - 1) as nat, n as nat);
    } else {
        vstd::arithmetic::div_mod::lemma_small_mod((n - 1) as nat, n as nat);
    }
    if i + 1 < n {
        vstd::arithmetic::div_mod::lemma_small_mod((i + 1) as nat, n as nat);
    } else {
        vstd::arithmetic::div_mod::lemma_mod_self_0(n);
    }
    assert((i + n - 1) % n == if i >= 1 { i - 1 } else { n - 1 });
    assert((i + 1) % n == if i + 1 < n { i + 1 } else { 0 });
    let u = if i >= 1 { i - 1 } else { n - 1 };
    if u + 1 < n {
        vstd::arithmetic::div_mod::lemma_small_mod((u + 1) as nat, n as nat);
    } else {
        vstd::arithmetic::div_mod::lemma_mod_self_0(n);
    }
}

/// Handles one frame of the path bar being edited, with the completions `completions` of
/// its text as it was before the frame's typing and `home` for `~`.
pub fn path_bar_key(
    edit: &mut PathBarEditState,
    completions: &Vec<String>,
    home: &str,
    input: &PathBarInput,
) -> (a: PathBarAction)
    ensures
        (final(edit).text@, final(edit).completion_index as int, a) == path_bar_step(
            old(edit).text@,
            old(edit).completion_index as int,
            completions.deep_view(),
            home@,
            *input,
        ),
        final(edit).revert_path == old(edit).revert_path,
{
    let n = completions.len();
    if edit.completion_index >= n {
        edit.completion_index = 0;
    }
    if input.edited {
        edit.completion_index = 0;
    }
    if input.escape {
        return PathBarAction::Cancel;
    }
    if input.enter {
        return PathBarAction::Commit;
    }
    if input.tab && n > 0 {
        let index = edit.completion_index % n;
        assert(completions.deep_view()[index as int] == completions@[index as int]@);
        apply_path_completion(&mut edit.text, completions[index].as_str(), home);
        edit.completion_index = (index + 1) % n;
    }
    if n > 0 {
        if input.arrow_down {
            edit.completion_index = (edit.completion_index + 1) % n;
        } else if input.arrow_up {
            edit.completion_index = if edit.completion_index >= 1 {
                edit.completion_index - 1
            } else {
                n - 1
            };
        }
    }
    match input.clicked {
        Some(j) => {
            if j < n {
                assert(completions.deep_view()[j as int] == completions@[j as int]@);
                apply_path_completion(&mut edit.text, completions[j].as_str(), home);
                edit.completion_index = j;
                return PathBarAction::Stay;
            }
        },
        None => {},
    }
    if input.leaving {
        PathBarAction::Commit
    } else {
        PathBarAction::Stay
    }
}

} // verus!
