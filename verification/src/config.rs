use crate::cli::{Options, ThemeOption};
use crate::persistent::{app_dir, app_dir_in, joined_path, DataDir};
use crate::text::{same_str, starts_with};
use vstd::prelude::*;
use vstd::string::*;

verus! {

/// How a search query is matched against the preview text.
#[derive(Clone, Copy, PartialEq, Eq, Structural, Debug)]
pub enum SearchMatcher {
    /// Case-insensitive unless the query contains an upper-case ASCII letter.
    SmartCase,
    CaseSensitive,
    CaseInsensitive,
    /// The query is a regular expression, matched case-sensitively.
    CaseSensitiveRegex,
}

impl Default for SearchMatcher {
    fn default() -> (m: Self)
        ensures
            m == SearchMatcher::SmartCase,
    {
        SearchMatcher::SmartCase
    }
}

} // verus!

verus! {

/// What a key binding does.
#[derive(Clone, Copy, PartialEq, Eq, Structural, Debug)]
pub enum KeyAction {
    Forward,
    Back,
    Reload,
    OpenFile,
    OpenDir,
    ScrollDown,
    ScrollUp,
    ScrollLeft,
    ScrollRight,
    ScrollPageDown,
    ScrollPageUp,
    ScrollTop,
    ScrollBottom,
    Search,
    NextSearch,
    PrevSearch,
    ScrollNextSection,
    ScrollPrevSection,
    Outline,
    History,
    Help,
    ZoomIn,
    ZoomOut,
    Quit,
}

/// The default key bindings, as values.
pub open spec fn default_bindings() -> Seq<(Seq<char>, KeyAction)> {
    seq![
        ("j"@, KeyAction::ScrollDown),
        ("k"@, KeyAction::ScrollUp),
        ("h"@, KeyAction::ScrollLeft),
        ("l"@, KeyAction::ScrollRight),
        ("ctrl+b"@, KeyAction::Back),
        ("ctrl+f"@, KeyAction::Forward),
        ("ctrl+o"@, KeyAction::OpenFile),
        ("ctrl+d"@, KeyAction::ScrollPageDown),
        ("ctrl+u"@, KeyAction::ScrollPageUp),
        ("down"@, KeyAction::ScrollDown),
        ("up"@, KeyAction::ScrollUp),
        ("left"@, KeyAction::ScrollLeft),
        ("right"@, KeyAction::ScrollRight),
        ("pagedown"@, KeyAction::ScrollPageDown),
        ("pageup"@, KeyAction::ScrollPageUp),
        ("ctrl+down"@, KeyAction::ScrollBottom),
        ("ctrl+up"@, KeyAction::ScrollTop),
        ("ctrl+j"@, KeyAction::ScrollNextSection),
        ("ctrl+k"@, KeyAction::ScrollPrevSection),
        ("?"@, KeyAction::Help),
    ]
}

/// The action that the first binding of a key in a list of bindings gives
/// it, if the key is bound.
pub open spec fn bound_action(bindings: Seq<(Seq<char>, KeyAction)>, key: Seq<char>) -> Option<KeyAction>
    decreases bindings.len(),
{
    if bindings.len() == 0 {
        None
    } else if bindings[0].0 == key {
        Some(bindings[0].1)
    } else {
        bound_action(bindings.drop_first(), key)
    }
}

proof fn lemma_bound_action_at(bindings: Seq<(Seq<char>, KeyAction)>, key: Seq<char>, i: int)
    requires
        0 <= i < bindings.len(),
        bindings[i].0 == key,
        forall|j: int| 0 <= j < i ==> bindings[j].0 != key,
    ensures
        bound_action(bindings, key) == Some(bindings[i].1),
    decreases i,
{
    if i > 0 {
        assert(bindings[0].0 != key);
        lemma_bound_action_at(bindings.drop_first(), key, i - 1);
    }
}

/// In the default bindings the vi keys scroll as the arrow keys do: `j` and
/// `down` scroll down, `k` and `up` scroll up, `h` and `left` scroll left,
/// `l` and `right` scroll right; `ctrl+d`/`pagedown` and `ctrl+u`/`pageup`
/// scroll by a page; `ctrl+down`/`ctrl+up` go to the bottom and top and
/// `ctrl+j`/`ctrl+k` to the next and previous section; `ctrl+f` goes forward
/// and `ctrl+b` back in the history, `ctrl+o` opens a file and `?` shows help.
pub proof fn law_default_vi_keys_scroll_like_arrows()
    ensures
        bound_action(default_bindings(), "j"@) == bound_action(default_bindings(), "down"@),
        bound_action(default_bindings(), "k"@) == bound_action(default_bindings(), "up"@),
        bound_action(default_bindings(), "h"@) == bound_action(default_bindings(), "left"@),
        bound_action(default_bindings(), "l"@) == bound_action(default_bindings(), "right"@),
        bound_action(default_bindings(), "ctrl+d"@) == bound_action(default_bindings(), "pagedown"@),
        bound_action(default_bindings(), "ctrl+u"@) == bound_action(default_bindings(), "pageup"@),
        bound_action(default_bindings(), "down"@) == Some(KeyAction::ScrollDown),
        bound_action(default_bindings(), "up"@) == Some(KeyAction::ScrollUp),
        bound_action(default_bindings(), "left"@) == Some(KeyAction::ScrollLeft),
        bound_action(default_bindings(), "right"@) == Some(KeyAction::ScrollRight),
        bound_action(default_bindings(), "pagedown"@) == Some(KeyAction::ScrollPageDown),
        bound_action(default_bindings(), "pageup"@) == Some(KeyAction::ScrollPageUp),
        bound_action(default_bindings(), "ctrl+f"@) == Some(KeyAction::Forward),
        bound_action(default_bindings(), "ctrl+b"@) == Some(KeyAction::Back),
        bound_action(default_bindings(), "ctrl+o"@) == Some(KeyAction::OpenFile),
        bound_action(default_bindings(), "ctrl+down"@) == Some(KeyAction::ScrollBottom),
        bound_action(default_bindings(), "ctrl+up"@) == Some(KeyAction::ScrollTop),
        bound_action(default_bindings(), "ctrl+j"@) == Some(KeyAction::ScrollNextSection),
        bound_action(default_bindings(), "ctrl+k"@) == Some(KeyAction::ScrollPrevSection),
        bound_action(default_bindings(), "?"@) == Some(KeyAction::Help),
{
    reveal_strlit("j");
    reveal_strlit("k");
    reveal_strlit("h");
    reveal_strlit("l");
    reveal_strlit("ctrl+b");
    reveal_strlit("ctrl+f");
    reveal_strlit("ctrl+o");
    reveal_strlit("ctrl+d");
    reveal_strlit("ctrl+u");
    reveal_strlit("down");
    reveal_strlit("up");
    reveal_strlit("left");
    reveal_strlit("right");
    reveal_strlit("pagedown");
    reveal_strlit("pageup");
    reveal_strlit("ctrl+down");
    reveal_strlit("ctrl+up");
    reveal_strlit("ctrl+j");
    reveal_strlit("ctrl+k");
    reveal_strlit("?");
    let b = default_bindings();
    assert(b[0].0 == "j"@);
    lemma_bound_action_at(b, "j"@, 0);
    assert(b[1].0 == "k"@);
    assert forall|j: int| 0 <= j < 1 implies b[j].0 != "k"@ by {
        if j == 0 {
            assert(b[0].0[0] != "k"@[0]);
        }
    }
    lemma_bound_action_at(b, "k"@, 1);
    assert(b[2].0 == "h"@);
    assert forall|j: int| 0 <= j < 2 implies b[j].0 != "h"@ by {
        if j == 0 {
            assert(b[0].0[0] != "h"@[0]);
        } else if j == 1 {
            assert(b[1].0[0] != "h"@[0]);
        }
    }
    lemma_bound_action_at(b, "h"@, 2);
    assert(b[3].0 == "l"@);
    assert forall|j: int| 0 <= j < 3 implies b[j].0 != "l"@ by {
        if j == 0 {
            assert(b[0].0[0] != "l"@[0]);
        } else if j == 1 {
            assert(b[1].0[0] != "l"@[0]);
        } else if j == 2 {
            assert(b[2].0[0] != "l"@[0]);
        }
    }
    lemma_bound_action_at(b, "l"@, 3);
    assert(b[4].0 == "ctrl+b"@);
    assert forall|j: int| 0 <= j < 4 implies b[j].0 != "ctrl+b"@ by {
        if j == 0 {
            assert(b[0].0.len() != "ctrl+b"@.len());
        } else if j == 1 {
            assert(b[1].0.len() != "ctrl+b"@.len());
        } else if j == 2 {
            assert(b[2].0.len() != "ctrl+b"@.len());
        } else if j == 3 {
            assert(b[3].0.len() != "ctrl+b"@.len());
        }
    }
    lemma_bound_action_at(b, "ctrl+b"@, 4);
    assert(b[5].0 == "ctrl+f"@);
    assert forall|j: int| 0 <= j < 5 implies b[j].0 != "ctrl+f"@ by {
        if j == 0 {
            assert(b[0].0.len() != "ctrl+f"@.len());
        } else if j == 1 {
            assert(b[1].0.len() != "ctrl+f"@.len());
        } else if j == 2 {
            assert(b[2].0.len() != "ctrl+f"@.len());
        } else if j == 3 {
            assert(b[3].0.len() != "ctrl+f"@.len());
        } else if j == 4 {
            assert(b[4].0[5] != "ctrl+f"@[5]);
        }
    }
    lemma_bound_action_at(b, "ctrl+f"@, 5);
    assert(b[6].0 == "ctrl+o"@);
    assert forall|j: int| 0 <= j < 6 implies b[j].0 != "ctrl+o"@ by {
        if j == 0 {
            assert(b[0].0.len() != "ctrl+o"@.len());
        } else if j == 1 {
            assert(b[1].0.len() != "ctrl+o"@.len());
        } else if j == 2 {
            assert(b[2].0.len() != "ctrl+o"@.len());
        } else if j == 3 {
            assert(b[3].0.len() != "ctrl+o"@.len());
        } else if j == 4 {
            assert(b[4].0[5] != "ctrl+o"@[5]);
        } else if j == 5 {
            assert(b[5].0[5] != "ctrl+o"@[5]);
        }
    }
    lemma_bound_action_at(b, "ctrl+o"@, 6);
    assert(b[7].0 == "ctrl+d"@);
    assert forall|j: int| 0 <= j < 7 implies b[j].0 != "ctrl+d"@ by {
        if j == 0 {
            assert(b[0].0.len() != "ctrl+d"@.len());
        } else if j == 1 {
            assert(b[1].0.len() != "ctrl+d"@.len());
        } else if j == 2 {
            assert(b[2].0.len() != "ctrl+d"@.len());
        } else if j == 3 {
            assert(b[3].0.len() != "ctrl+d"@.len());
        } else if j == 4 {
            assert(b[4].0[5] != "ctrl+d"@[5]);
        } else if j == 5 {
            assert(b[5].0[5] != "ctrl+d"@[5]);
        } else if j == 6 {
            assert(b[6].0[5] != "ctrl+d"@[5]);
        }
    }
    lemma_bound_action_at(b, "ctrl+d"@, 7);
    assert(b[8].0 == "ctrl+u"@);
    assert forall|j: int| 0 <= j < 8 implies b[j].0 != "ctrl+u"@ by {
        if j == 0 {
            assert(b[0].0.len() != "ctrl+u"@.len());
        } else if j == 1 {
            assert(b[1].0.len() != "ctrl+u"@.len());
        } else if j == 2 {
            assert(b[2].0.len() != "ctrl+u"@.len());
        } else if j == 3 {
            assert(b[3].0.len() != "ctrl+u"@.len());
        } else if j == 4 {
            assert(b[4].0[5] != "ctrl+u"@[5]);
        } else if j == 5 {
            assert(b[5].0[5] != "ctrl+u"@[5]);
        } else if j == 6 {
            assert(b[6].0[5] != "ctrl+u"@[5]);
        } else if j == 7 {
            assert(b[7].0[5] != "ctrl+u"@[5]);
        }
    }
    lemma_bound_action_at(b, "ctrl+u"@, 8);
    assert(b[9].0 == "down"@);
    assert forall|j: int| 0 <= j < 9 implies b[j].0 != "down"@ by {
        if j == 0 {
            assert(b[0].0.len() != "down"@.len());
        } else if j == 1 {
            assert(b[1].0.len() != "down"@.len());
        } else if j == 2 {
            assert(b[2].0.len() != "down"@.len());
        } else if j == 3 {
            assert(b[3].0.len() != "down"@.len());
        } else if j == 4 {
            assert(b[4].0.len() != "down"@.len());
        } else if j == 5 {
            assert(b[5].0.len() != "down"@.len());
        } else if j == 6 {
            assert(b[6].0.len() != "down"@.len());
        } else if j == 7 {
            assert(b[7].0.len() != "down"@.len());
        } else if j == 8 {
            assert(b[8].0.len() != "down"@.len());
        }
    }
    lemma_bound_action_at(b, "down"@, 9);
    assert(b[10].0 == "up"@);
    assert forall|j: int| 0 <= j < 10 implies b[j].0 != "up"@ by {
        if j == 0 {
            assert(b[0].0.len() != "up"@.len());
        } else if j == 1 {
            assert(b[1].0.len() != "up"@.len());
        } else if j == 2 {
            assert(b[2].0.len() != "up"@.len());
        } else if j == 3 {
            assert(b[3].0.len() != "up"@.len());
        } else if j == 4 {
            assert(b[4].0.len() != "up"@.len());
        } else if j == 5 {
            assert(b[5].0.len() != "up"@.len());
        } else if j == 6 {
            assert(b[6].0.len() != "up"@.len());
        } else if j == 7 {
            assert(b[7].0.len() != "up"@.len());
        } else if j == 8 {
            assert(b[8].0.len() != "up"@.len());
        } else if j == 9 {
            assert(b[9].0.len() != "up"@.len());
        }
    }
    lemma_bound_action_at(b, "up"@, 10);
    assert(b[11].0 == "left"@);
    assert forall|j: int| 0 <= j < 11 implies b[j].0 != "left"@ by {
        if j == 0 {
            assert(b[0].0.len() != "left"@.len());
        } else if j == 1 {
            assert(b[1].0.len() != "left"@.len());
        } else if j == 2 {
            assert(b[2].0.len() != "left"@.len());
        } else if j == 3 {
            assert(b[3].0.len() != "left"@.len());
        } else if j == 4 {
            assert(b[4].0.len() != "left"@.len());
        } else if j == 5 {
            assert(b[5].0.len() != "left"@.len());
        } else if j == 6 {
            assert(b[6].0.len() != "left"@.len());
        } else if j == 7 {
            assert(b[7].0.len() != "left"@.len());
        } else if j == 8 {
            assert(b[8].0.len() != "left"@.len());
        } else if j == 9 {
            assert(b[9].0[0] != "left"@[0]);
        } else if j == 10 {
            assert(b[10].0.len() != "left"@.len());
        }
    }
    lemma_bound_action_at(b, "left"@, 11);
    assert(b[12].0 == "right"@);
    assert forall|j: int| 0 <= j < 12 implies b[j].0 != "right"@ by {
        if j == 0 {
            assert(b[0].0.len() != "right"@.len());
        } else if j == 1 {
            assert(b[1].0.len() != "right"@.len());
        } else if j == 2 {
            assert(b[2].0.len() != "right"@.len());
        } else if j == 3 {
            assert(b[3].0.len() != "right"@.len());
        } else if j == 4 {
            assert(b[4].0.len() != "right"@.len());
        } else if j == 5 {
            assert(b[5].0.len() != "right"@.len());
        } else if j == 6 {
            assert(b[6].0.len() != "right"@.len());
        } else if j == 7 {
            assert(b[7].0.len() != "right"@.len());
        } else if j == 8 {
            assert(b[8].0.len() != "right"@.len());
        } else if j == 9 {
            assert(b[9].0.len() != "right"@.len());
        } else if j == 10 {
            assert(b[10].0.len() != "right"@.len());
        } else if j == 11 {
            assert(b[11].0.len() != "right"@.len());
        }
    }
    lemma_bound_action_at(b, "right"@, 12);
    assert(b[13].0 == "pagedown"@);
    assert forall|j: int| 0 <= j < 13 implies b[j].0 != "pagedown"@ by {
        if j == 0 {
            assert(b[0].0.len() != "pagedown"@.len());
        } else if j == 1 {
            assert(b[1].0.len() != "pagedown"@.len());
        } else if j == 2 {
            assert(b[2].0.len() != "pagedown"@.len());
        } else if j == 3 {
            assert(b[3].0.len() != "pagedown"@.len());
        } else if j == 4 {
            assert(b[4].0.len() != "pagedown"@.len());
        } else if j == 5 {
            assert(b[5].0.len() != "pagedown"@.len());
        } else if j == 6 {
            assert(b[6].0.len() != "pagedown"@.len());
        } else if j == 7 {
            assert(b[7].0.len() != "pagedown"@.len());
        } else if j == 8 {
            assert(b[8].0.len() != "pagedown"@.len());
        } else if j == 9 {
            assert(b[9].0.len() != "pagedown"@.len());
        } else if j == 10 {
            assert(b[10].0.len() != "pagedown"@.len());
        } else if j == 11 {
            assert(b[11].0.len() != "pagedown"@.len());
        } else if j == 12 {
            assert(b[12].0.len() != "pagedown"@.len());
        }
    }
    lemma_bound_action_at(b, "pagedown"@, 13);
    assert(b[14].0 == "pageup"@);
    assert forall|j: int| 0 <= j < 14 implies b[j].0 != "pageup"@ by {
        if j == 0 {
            assert(b[0].0.len() != "pageup"@.len());
        } else if j == 1 {
            assert(b[1].0.len() != "pageup"@.len());
        } else if j == 2 {
            assert(b[2].0.len() != "pageup"@.len());
        } else if j == 3 {
            assert(b[3].0.len() != "pageup"@.len());
        } else if j == 4 {
            assert(b[4].0[0] != "pageup"@[0]);
        } else if j == 5 {
            assert(b[5].0[0] != "pageup"@[0]);
        } else if j == 6 {
            assert(b[6].0[0] != "pageup"@[0]);
        } else if j == 7 {
            assert(b[7].0[0] != "pageup"@[0]);
        } else if j == 8 {
            assert(b[8].0[0] != "pageup"@[0]);
        } else if j == 9 {
            assert(b[9].0.len() != "pageup"@.len());
        } else if j == 10 {
            assert(b[10].0.len() != "pageup"@.len());
        } else if j == 11 {
            assert(b[11].0.len() != "pageup"@.len());
        } else if j == 12 {
            assert(b[12].0.len() != "pageup"@.len());
        } else if j == 13 {
            assert(b[13].0.len() != "pageup"@.len());
        }
    }
    lemma_bound_action_at(b, "pageup"@, 14);
    assert(b[15].0 == "ctrl+down"@);
    assert forall|j: int| 0 <= j < 15 implies b[j].0 != "ctrl+down"@ by {
        if j == 0 {
            assert(b[0].0.len() != "ctrl+down"@.len());
        } else if j == 1 {
            assert(b[1].0.len() != "ctrl+down"@.len());
        } else if j == 2 {
            assert(b[2].0.len() != "ctrl+down"@.len());
        } else if j == 3 {
            assert(b[3].0.len() != "ctrl+down"@.len());
        } else if j == 4 {
            assert(b[4].0.len() != "ctrl+down"@.len());
        } else if j == 5 {
            assert(b[5].0.len() != "ctrl+down"@.len());
        } else if j == 6 {
            assert(b[6].0.len() != "ctrl+down"@.len());
        } else if j == 7 {
            assert(b[7].0.len() != "ctrl+down"@.len());
        } else if j == 8 {
            assert(b[8].0.len() != "ctrl+down"@.len());
        } else if j == 9 {
            assert(b[9].0.len() != "ctrl+down"@.len());
        } else if j == 10 {
            assert(b[10].0.len() != "ctrl+down"@.len());
        } else if j == 11 {
            assert(b[11].0.len() != "ctrl+down"@.len());
        } else if j == 12 {
            assert(b[12].0.len() != "ctrl+down"@.len());
        } else if j == 13 {
            assert(b[13].0.len() != "ctrl+down"@.len());
        } else if j == 14 {
            assert(b[14].0.len() != "ctrl+down"@.len());
        }
    }
    lemma_bound_action_at(b, "ctrl+down"@, 15);
    assert(b[16].0 == "ctrl+up"@);
    assert forall|j: int| 0 <= j < 16 implies b[j].0 != "ctrl+up"@ by {
        if j == 0 {
            assert(b[0].0.len() != "ctrl+up"@.len());
        } else if j == 1 {
            assert(b[1].0.len() != "ctrl+up"@.len());
        } else if j == 2 {
            assert(b[2].0.len() != "ctrl+up"@.len());
        } else if j == 3 {
            assert(b[3].0.len() != "ctrl+up"@.len());
        } else if j == 4 {
            assert(b[4].0.len() != "ctrl+up"@.len());
        } else if j == 5 {
            assert(b[5].0.len() != "ctrl+up"@.len());
        } else if j == 6 {
            assert(b[6].0.len() != "ctrl+up"@.len());
        } else if j == 7 {
            assert(b[7].0.len() != "ctrl+up"@.len());
        } else if j == 8 {
            assert(b[8].0.len() != "ctrl+up"@.len());
        } else if j == 9 {
            assert(b[9].0.len() != "ctrl+up"@.len());
        } else if j == 10 {
            assert(b[10].0.len() != "ctrl+up"@.len());
        } else if j == 11 {
            assert(b[11].0.len() != "ctrl+up"@.len());
        } else if j == 12 {
            assert(b[12].0.len() != "ctrl+up"@.len());
        } else if j == 13 {
            assert(b[13].0.len() != "ctrl+up"@.len());
        } else if j == 14 {
            assert(b[14].0.len() != "ctrl+up"@.len());
        } else if j == 15 {
            assert(b[15].0.len() != "ctrl+up"@.len());
        }
    }
    lemma_bound_action_at(b, "ctrl+up"@, 16);
    assert(b[17].0 == "ctrl+j"@);
    assert forall|j: int| 0 <= j < 17 implies b[j].0 != "ctrl+j"@ by {
        if j == 0 {
            assert(b[0].0.len() != "ctrl+j"@.len());
        } else if j == 1 {
            assert(b[1].0.len() != "ctrl+j"@.len());
        } else if j == 2 {
            assert(b[2].0.len() != "ctrl+j"@.len());
        } else if j == 3 {
            assert(b[3].0.len() != "ctrl+j"@.len());
        } else if j == 4 {
            assert(b[4].0[5] != "ctrl+j"@[5]);
        } else if j == 5 {
            assert(b[5].0[5] != "ctrl+j"@[5]);
        } else if j == 6 {
            assert(b[6].0[5] != "ctrl+j"@[5]);
        } else if j == 7 {
            assert(b[7].0[5] != "ctrl+j"@[5]);
        } else if j == 8 {
            assert(b[8].0[5] != "ctrl+j"@[5]);
        } else if j == 9 {
            assert(b[9].0.len() != "ctrl+j"@.len());
        } else if j == 10 {
            assert(b[10].0.len() != "ctrl+j"@.len());
        } else if j == 11 {
            assert(b[11].0.len() != "ctrl+j"@.len());
        } else if j == 12 {
            assert(b[12].0.len() != "ctrl+j"@.len());
        } else if j == 13 {
            assert(b[13].0.len() != "ctrl+j"@.len());
        } else if j == 14 {
            assert(b[14].0[0] != "ctrl+j"@[0]);
        } else if j == 15 {
            assert(b[15].0.len() != "ctrl+j"@.len());
        } else if j == 16 {
            assert(b[16].0.len() != "ctrl+j"@.len());
        }
    }
    lemma_bound_action_at(b, "ctrl+j"@, 17);
    assert(b[18].0 == "ctrl+k"@);
    assert forall|j: int| 0 <= j < 18 implies b[j].0 != "ctrl+k"@ by {
        if j == 0 {
            assert(b[0].0.len() != "ctrl+k"@.len());
        } else if j == 1 {
            assert(b[1].0.len() != "ctrl+k"@.len());
        } else if j == 2 {
            assert(b[2].0.len() != "ctrl+k"@.len());
        } else if j == 3 {
            assert(b[3].0.len() != "ctrl+k"@.len());
        } else if j == 4 {
            assert(b[4].0[5] != "ctrl+k"@[5]);
        } else if j == 5 {
            assert(b[5].0[5] != "ctrl+k"@[5]);
        } else if j == 6 {
            assert(b[6].0[5] != "ctrl+k"@[5]);
        } else if j == 7 {
            assert(b[7].0[5] != "ctrl+k"@[5]);
        } else if j == 8 {
            assert(b[8].0[5] != "ctrl+k"@[5]);
        } else if j == 9 {
            assert(b[9].0.len() != "ctrl+k"@.len());
        } else if j == 10 {
            assert(b[10].0.len() != "ctrl+k"@.len());
        } else if j == 11 {
            assert(b[11].0.len() != "ctrl+k"@.len());
        } else if j == 12 {
            assert(b[12].0.len() != "ctrl+k"@.len());
        } else if j == 13 {
            assert(b[13].0.len() != "ctrl+k"@.len());
        } else if j == 14 {
            assert(b[14].0[0] != "ctrl+k"@[0]);
        } else if j == 15 {
            assert(b[15].0.len() != "ctrl+k"@.len());
        } else if j == 16 {
            assert(b[16].0.len() != "ctrl+k"@.len());
        } else if j == 17 {
            assert(b[17].0[5] != "ctrl+k"@[5]);
        }
    }
    lemma_bound_action_at(b, "ctrl+k"@, 18);
    assert(b[19].0 == "?"@);
    assert forall|j: int| 0 <= j < 19 implies b[j].0 != "?"@ by {
        if j == 0 {
            assert(b[0].0[0] != "?"@[0]);
        } else if j == 1 {
            assert(b[1].0[0] != "?"@[0]);
        } else if j == 2 {
            assert(b[2].0[0] != "?"@[0]);
        } else if j == 3 {
            assert(b[3].0[0] != "?"@[0]);
        } else if j == 4 {
            assert(b[4].0.len() != "?"@.len());
        } else if j == 5 {
            assert(b[5].0.len() != "?"@.len());
        } else if j == 6 {
            assert(b[6].0.len() != "?"@.len());
        } else if j == 7 {
            assert(b[7].0.len() != "?"@.len());
        } else if j == 8 {
            assert(b[8].0.len() != "?"@.len());
        } else if j == 9 {
            assert(b[9].0.len() != "?"@.len());
        } else if j == 10 {
            assert(b[10].0.len() != "?"@.len());
        } else if j == 11 {
            assert(b[11].0.len() != "?"@.len());
        } else if j == 12 {
            assert(b[12].0.len() != "?"@.len());
        } else if j == 13 {
            assert(b[13].0.len() != "?"@.len());
        } else if j == 14 {
            assert(b[14].0.len() != "?"@.len());
        } else if j == 15 {
            assert(b[15].0.len() != "?"@.len());
        } else if j == 16 {
            assert(b[16].0.len() != "?"@.len());
        } else if j == 17 {
            assert(b[17].0.len() != "?"@.len());
        } else if j == 18 {
            assert(b[18].0.len() != "?"@.len());
        }
    }
    lemma_bound_action_at(b, "?"@, 19);
}

/// The key bindings that are in effect when the configuration names none:
/// vi-like keys, arrows and page keys to scroll, `ctrl+b`/`ctrl+f` to go
/// back and forward in the history, `ctrl+o` to open a file and `?` for help.
pub fn default_key_mappings() -> (m: Vec<(&'static str, KeyAction)>)
    ensures
        m@.map_values(|e: (&'static str, KeyAction)| (e.0@, e.1)) == default_bindings(),
{
    let m = vec![
        ("j", KeyAction::ScrollDown),
        ("k", KeyAction::ScrollUp),
        ("h", KeyAction::ScrollLeft),
        ("l", KeyAction::ScrollRight),
        ("ctrl+b", KeyAction::Back),
        ("ctrl+f", KeyAction::Forward),
        ("ctrl+o", KeyAction::OpenFile),
        ("ctrl+d", KeyAction::ScrollPageDown),
        ("ctrl+u", KeyAction::ScrollPageUp),
        ("down", KeyAction::ScrollDown),
        ("up", KeyAction::ScrollUp),
        ("left", KeyAction::ScrollLeft),
        ("right", KeyAction::ScrollRight),
        ("pagedown", KeyAction::ScrollPageDown),
        ("pageup", KeyAction::ScrollPageUp),
        ("ctrl+down", KeyAction::ScrollBottom),
        ("ctrl+up", KeyAction::ScrollTop),
        ("ctrl+j", KeyAction::ScrollNextSection),
        ("ctrl+k", KeyAction::ScrollPrevSection),
        ("?", KeyAction::Help),
    ];
    assert(m@.map_values(|e: (&'static str, KeyAction)| (e.0@, e.1)) =~= default_bindings());
    m
}

/// The file extensions of the documents that are previewed.
#[derive(Clone, Debug)]
pub struct FileExtensions(pub Vec<String>);

/// The extension that `std::path::Path::extension` finds in a path: the
/// part of its file name after the last `.`, when the name has a `.` that
/// does not start it.
pub uninterp spec fn path_extension(path: Seq<char>) -> Option<Seq<char>>;

/// Calls `std::path::Path::extension` and converts the extension to a
/// string (lossily, as the path is already a string). What the extension
/// of a path is, is named, not stated.
#[verifier::external_body]
fn extension_of(path: &str) -> (r: Option<String>)
    ensures
        match r {
            Some(e) => path_extension(path@) == Some(e@),
            None => path_extension(path@) is None,
        },
{
    std::path::Path::new(path).extension().map(|e| e.to_string_lossy().into_owned())
}

impl FileExtensions {
    /// The extensions, without their dots.
    pub open spec fn spec_extensions(&self) -> Seq<Seq<char>> {
        self.0@.map_values(|s: String| s@)
    }

    /// Whether an extension is one of these; a path without extension never
    /// is.
    pub fn matches_extension(&self, ext: Option<&str>) -> (b: bool)
        ensures
            b == match ext {
                Some(e) => self.spec_extensions().contains(e@),
                None => false,
            },
    {
        match ext {
            None => false,
            Some(e) => {
                let es = String::from_str(e);
                let mut i: usize = 0;
                while i < self.0.len()
                    invariant
                        i <= self.0@.len(),
                        es@ == e@,
                        ext == Some(e),
                        forall|j: int| 0 <= j < i ==> self.0@[j]@ != e@,
                    decreases self.0.len() - i,
                {
                    if self.0[i] == es {
                        assert(self.spec_extensions()[i as int] == e@);
                        assert(self.spec_extensions().contains(e@));
                        return true;
                    }
                    i = i + 1;
                }
                assert forall|j: int| 0 <= j < self.spec_extensions().len() implies self.spec_extensions()[j] != e@ by {
                    assert(self.spec_extensions()[j] == self.0@[j]@);
                }
                false
            },
        }
    }

    /// Whether the path has one of these extensions.
    pub fn matches(&self, path: &str) -> (b: bool)
        ensures
            b == match path_extension(path@) {
                Some(e) => self.spec_extensions().contains(e),
                None => false,
            },
    {
        match extension_of(path) {
            Some(e) => self.matches_extension(Some(e.as_str())),
            None => self.matches_extension(None),
        }
    }

    /// The extensions.
    pub fn as_slice(&self) -> (s: &[String])
        ensures
            s@ == self.0@,
    {
        self.0.as_slice()
    }
}

impl Default for FileExtensions {
    fn default() -> (e: Self)
        ensures
            e.spec_extensions() == seq!["md"@, "mkd"@, "markdown"@],
    {
        let e = FileExtensions(vec![String::from_str("md"), String::from_str("mkd"), String::from_str("markdown")]);
        assert(e.spec_extensions() =~= seq!["md"@, "mkd"@, "markdown"@]);
        e
    }
}

/// How the file system is watched.
#[derive(Debug)]
pub struct Watch {
    pub file_extensions: FileExtensions,
    /// Milliseconds within which repeated changes of a file count as one.
    pub debounce_throttle: u32,
}

impl Default for Watch {
    fn default() -> (w: Self)
        ensures
            w.file_extensions.spec_extensions() == seq!["md"@, "mkd"@, "markdown"@],
            w.debounce_throttle == 50,
    {
        Watch { file_extensions: FileExtensions::default(), debounce_throttle: 50 }
    }
}

impl Watch {
    /// The debounce interval, in milliseconds.
    pub fn debounce_throttle(&self) -> (ms: u64)
        ensures
            ms == self.debounce_throttle,
    {
        self.debounce_throttle as u64
    }

    /// The extensions of the files that are watched.
    pub fn file_extensions(&self) -> (e: &FileExtensions)
        ensures
            *e == self.file_extensions,
    {
        &self.file_extensions
    }
}

/// How search is configured.
#[derive(Clone, Copy, PartialEq, Eq, Structural, Debug)]
pub struct Search {
    pub matcher: SearchMatcher,
}

impl Default for Search {
    fn default() -> (s: Self)
        ensures
            s.matcher == SearchMatcher::SmartCase,
    {
        Search { matcher: SearchMatcher::SmartCase }
    }
}

/// The theme of the window.
#[derive(Clone, Copy, PartialEq, Eq, Structural, Debug)]
pub enum WindowTheme {
    System,
    Dark,
    Light,
}

impl Default for WindowTheme {
    fn default() -> (t: Self)
        ensures
            t == WindowTheme::System,
    {
        WindowTheme::System
    }
}

/// The size of a window.
#[derive(Clone, Copy, PartialEq, Eq, Structural, Debug)]
pub struct WindowSize {
    pub width: u32,
    pub height: u32,
}

/// The code highlighting themes for dark and light appearance.
#[derive(Clone, Debug)]
pub struct PreviewHighlight {
    pub dark: String,
    pub light: String,
}

impl Default for PreviewHighlight {
    fn default() -> (h: Self)
        ensures
            h.dark@ == "GitHub Dark"@,
            h.light@ == "GitHub"@,
    {
        PreviewHighlight { dark: String::from_str("GitHub Dark"), light: String::from_str("GitHub") }
    }
}

/// How the preview is configured.
#[derive(Debug)]
pub struct Preview {
    pub highlight: PreviewHighlight,
    /// A CSS file that replaces the default style.
    pub css: Option<String>,
    /// How many recently opened files are remembered.
    pub recent_files: usize,
}

impl Default for Preview {
    fn default() -> (p: Self)
        ensures
            p.highlight.dark@ == "GitHub Dark"@,
            p.highlight.light@ == "GitHub"@,
            p.css is None,
            p.recent_files == 100,
    {
        Preview { highlight: PreviewHighlight::default(), css: None, recent_files: 100 }
    }
}

impl Preview {
    /// The highlighting themes.
    pub fn highlight(&self) -> (h: &PreviewHighlight)
        ensures
            *h == self.highlight,
    {
        &self.highlight
    }

    /// The path of the user's CSS file, if one is configured.
    pub fn css_path(&self) -> (p: Option<&str>)
        ensures
            match p {
                Some(s) => self.css matches Some(c) && s@ == c@,
                None => self.css is None,
            },
    {
        match &self.css {
            Some(c) => Some(c.as_str()),
            None => None,
        }
    }
}


/// How the window is configured.
#[derive(Debug)]
pub struct Window {
    pub restore: bool,
    pub theme: WindowTheme,
    pub always_on_top: bool,
    pub default_size: Option<WindowSize>,
    pub menu_bar: bool,
}

impl Default for Window {
    fn default() -> (w: Self)
        ensures
            !w.restore,
            w.theme == WindowTheme::System,
            !w.always_on_top,
            w.default_size is None,
            !w.menu_bar,
    {
        Window { restore: false, theme: WindowTheme::System, always_on_top: false, default_size: None, menu_bar: false }
    }
}

/// How the file dialogs are configured.
#[derive(Debug)]
pub struct Dialog {
    /// The directory that dialogs open in.
    pub default_dir: Option<String>,
}

impl Default for Dialog {
    fn default() -> (d: Self)
        ensures
            d.default_dir is None,
    {
        Dialog { default_dir: None }
    }
}

/// The directory that a `default_dir` value of the configuration names:
/// none for `null`; a value starting with `~/` is under the home directory
/// (none without one), unless what follows is absolute; any other value is
/// the path itself. Whether it is a directory is checked by the caller.
pub open spec fn spec_dialog_dir(value: Seq<char>, home: Option<Seq<char>>) -> Option<Seq<char>> {
    if value == "null"@ {
        None
    } else if value.len() >= 2 && value[0] == '~' && value[1] == '/' {
        let rel = value.skip(2);
        match home {
            None => None,
            Some(h) => if rel.len() > 0 && rel[0] == '/' {
                Some(rel)
            } else if h.len() > 0 && h.last() == '/' {
                Some(h + rel)
            } else {
                Some(h + seq!['/'] + rel)
            },
        }
    } else {
        Some(value)
    }
}

/// The directory that a `default_dir` value of the configuration names.
pub fn dialog_dir(value: &str, home: Option<&str>) -> (r: Option<String>)
    ensures
        match r {
            Some(p) => spec_dialog_dir(value@, match home { Some(h) => Some(h@), None => None }) == Some(p@),
            None => spec_dialog_dir(value@, match home { Some(h) => Some(h@), None => None }) is None,
        },
{
    proof {
        reveal_strlit("null");
        reveal_strlit("/");
    }
    if same_str(value, "null") {
        return None;
    }
    let n = value.unicode_len();
    if n >= 2 && value.get_char(0) == '~' && value.get_char(1) == '/' {
        let rel = value.substring_char(2, n);
        assert(rel@ =~= value@.skip(2));
        match home {
            None => None,
            Some(h) => {
                if rel.unicode_len() > 0 && rel.get_char(0) == '/' {
                    Some(String::from_str(rel))
                } else {
                    let mut p = String::from_str(h);
                    let m = h.unicode_len();
                    if !(m > 0 && h.get_char(m - 1) == '/') {
                        p.append("/");
                    }
                    p.append(rel);
                    Some(p)
                }
            },
        }
    } else {
        Some(String::from_str(value))
    }
}

/// The configuration that the user wrote, or the defaults.
#[derive(Debug)]
pub struct UserConfig {
    pub watch: Watch,
    /// Key bindings: each key once, with its action.
    pub keymaps: Vec<(String, KeyAction)>,
    pub search: Search,
    pub window: Window,
    pub preview: Preview,
    pub dialog: Dialog,
}

impl Default for UserConfig {
    fn default() -> (c: Self)
        ensures
            c.keymaps@.map_values(|e: (String, KeyAction)| (e.0@, e.1)) == default_bindings(),
            c.watch.debounce_throttle == 50,
            c.search.matcher == SearchMatcher::SmartCase,
            !c.window.restore,
            c.window.theme == WindowTheme::System,
            c.preview.recent_files == 100,
            c.dialog.default_dir is None,
    {
        let defaults = default_key_mappings();
        let mut keymaps: Vec<(String, KeyAction)> = Vec::new();
        let mut i: usize = 0;
        while i < defaults.len()
            invariant
                i <= defaults@.len(),
                keymaps@.map_values(|e: (String, KeyAction)| (e.0@, e.1))
                    == defaults@.take(i as int).map_values(|e: (&'static str, KeyAction)| (e.0@, e.1)),
            decreases defaults.len() - i,
        {
            let (key, action) = defaults[i];
            let ghost before = keymaps@;
            keymaps.push((String::from_str(key), action));
            assert(keymaps@.map_values(|e: (String, KeyAction)| (e.0@, e.1))
                =~= before.map_values(|e: (String, KeyAction)| (e.0@, e.1)).push((key@, action)));
            assert(defaults@.take(i + 1).map_values(|e: (&'static str, KeyAction)| (e.0@, e.1))
                =~= defaults@.take(i as int).map_values(|e: (&'static str, KeyAction)| (e.0@, e.1)).push((key@, action)));
            i = i + 1;
        }
        assert(defaults@.take(i as int) =~= defaults@);
        UserConfig {
            watch: Watch::default(),
            keymaps,
            search: Search::default(),
            window: Window::default(),
            preview: Preview::default(),
            dialog: Dialog::default(),
        }
    }
}

/// The window theme that a theme chosen on the command line sets.
pub open spec fn spec_window_theme(t: ThemeOption) -> WindowTheme {
    match t {
        ThemeOption::System => WindowTheme::System,
        ThemeOption::Dark => WindowTheme::Dark,
        ThemeOption::Light => WindowTheme::Light,
    }
}

/// The name of the configuration file that is written with the defaults.
pub const DEFAULT_CONFIG_FILE_NAME: &'static str = "config.yml";

/// The other name that a configuration file may have.
pub const OTHER_CONFIG_FILE_NAME: &'static str = "config.yaml";

/// `dirs::config_dir`: the directory of the platform for configuration
/// files, as a string, when there is one. What it returns depends on the
/// platform and the environment, so nothing is stated of it.
#[verifier::external_body]
fn system_config_dir() -> (d: Option<String>) {
    match dirs::config_dir() {
        Some(p) => Some(p.to_string_lossy().into_owned()),
        None => None,
    }
}

/// The configuration directory: the one the command line gives, or else
/// the application's directory in the one of the platform, if there is one.
pub fn config_dir_of(option: Option<String>) -> (r: Option<String>)
    ensures
        option is Some ==> r == option,
        option is None ==> match r {
            Some(d) => exists|b: Seq<char>| app_dir(Some(b)) == Some(d@),
            None => true,
        },
{
    match option {
        Some(d) => Some(d),
        None => app_dir_in(system_config_dir()),
    }
}

/// The configuration of the application: the user's configuration with
/// the command line's choices on top, where it was read from, and where
/// data is kept.
#[derive(Debug)]
pub struct Config {
    user_config: UserConfig,
    path: Option<String>,
    data_dir: DataDir,
    debug: bool,
}

impl Config {
    /// The configuration read from `config_dir` (or the defaults), with
    /// the command line's theme and `--no-restore` on top, as the command
    /// line options have the higher priority.
    pub fn new(user_config: UserConfig, options: &Options, config_dir: Option<String>, data_dir: DataDir) -> (c: Config)
        ensures
            c.spec_window().theme == match options.theme {
                Some(t) => spec_window_theme(t),
                None => user_config.window.theme,
            },
            c.spec_window().restore == (user_config.window.restore && options.restore),
            c.spec_window().always_on_top == user_config.window.always_on_top,
            c.spec_window().default_size == user_config.window.default_size,
            c.spec_window().menu_bar == user_config.window.menu_bar,
            c.spec_debug() == options.debug,
            c.spec_config_dir() == config_dir,
            c.spec_data_dir() == data_dir,
            c.spec_keymaps() == user_config.keymaps@,
            c.spec_user_config().watch == user_config.watch,
            c.spec_user_config().search == user_config.search,
            c.spec_user_config().preview == user_config.preview,
            c.spec_user_config().dialog == user_config.dialog,
    {
        let mut user_config = user_config;
        match options.theme {
            Some(t) => {
                user_config.window.theme = match t {
                    ThemeOption::System => WindowTheme::System,
                    ThemeOption::Dark => WindowTheme::Dark,
                    ThemeOption::Light => WindowTheme::Light,
                };
            },
            None => {},
        }
        if !options.restore {
            user_config.window.restore = false;
        }
        Config { user_config, path: config_dir, data_dir, debug: options.debug }
    }

    /// The user's configuration, with the command line's choices on top.
    pub closed spec fn spec_user_config(&self) -> UserConfig {
        self.user_config
    }

    /// The window configuration.
    pub open spec fn spec_window(&self) -> Window {
        self.spec_user_config().window
    }

    /// Whether the debug features are on.
    pub closed spec fn spec_debug(&self) -> bool {
        self.debug
    }

    /// The configuration directory.
    pub closed spec fn spec_config_dir(&self) -> Option<String> {
        self.path
    }

    /// Where data is kept.
    pub closed spec fn spec_data_dir(&self) -> DataDir {
        self.data_dir
    }

    /// The key bindings.
    pub open spec fn spec_keymaps(&self) -> Seq<(String, KeyAction)> {
        self.spec_user_config().keymaps@
    }

    /// The configuration directory, if one could be determined.
    pub fn config_dir(&self) -> (p: Option<&str>)
        ensures
            match p {
                Some(s) => self.spec_config_dir() matches Some(d) && s@ == d@,
                None => self.spec_config_dir() is None,
            },
    {
        match &self.path {
            Some(p) => Some(p.as_str()),
            None => None,
        }
    }

    /// The files that the configuration may be read from, in the order in
    /// which they are looked for; the first is where the default one is
    /// written when there is none. Without a configuration directory there
    /// is no such file.
    pub fn config_file_candidates(&self) -> (r: Result<Vec<String>, String>)
        ensures
            match self.spec_config_dir() {
                Some(d) => r matches Ok(v) && v@.len() == 2
                    && v@[0]@ == joined_path(d@, DEFAULT_CONFIG_FILE_NAME@)
                    && v@[1]@ == joined_path(d@, OTHER_CONFIG_FILE_NAME@),
                None => r matches Err(e) && e@ == "Configuration directory cannot be determined. Try --config-dir"@,
            },
    {
        let dir = DataDir::new(match &self.path {
            Some(p) => Some(p.clone()),
            None => None,
        });
        match (dir.file_path(DEFAULT_CONFIG_FILE_NAME), dir.file_path(OTHER_CONFIG_FILE_NAME)) {
            (Some(a), Some(b)) => Ok(vec![a, b]),
            _ => Err(String::from_str("Configuration directory cannot be determined. Try --config-dir")),
        }
    }

    /// Where data is kept.
    pub fn data_dir(&self) -> (d: &DataDir)
        ensures
            *d == self.spec_data_dir(),
    {
        &self.data_dir
    }

    /// How the file system is watched.
    pub fn watch(&self) -> (w: &Watch)
        ensures
            *w == self.spec_user_config().watch,
    {
        &self.user_config.watch
    }

    /// The key bindings.
    pub fn keymaps(&self) -> (k: &[(String, KeyAction)])
        ensures
            k@ == self.spec_keymaps(),
    {
        self.user_config.keymaps.as_slice()
    }

    /// How search is configured.
    pub fn search(&self) -> (s: &Search)
        ensures
            *s == self.spec_user_config().search,
    {
        &self.user_config.search
    }

    /// The window configuration.
    pub fn window(&self) -> (w: &Window)
        ensures
            *w == self.spec_window(),
    {
        &self.user_config.window
    }

    /// How the preview is configured.
    pub fn preview(&self) -> (p: &Preview)
        ensures
            *p == self.spec_user_config().preview,
    {
        &self.user_config.preview
    }

    /// How the file dialogs are configured.
    pub fn dialog(&self) -> (d: &Dialog)
        ensures
            *d == self.spec_user_config().dialog,
    {
        &self.user_config.dialog
    }

    /// Whether the debug features are on.
    pub fn debug(&self) -> (b: bool)
        ensures
            b == self.spec_debug(),
    {
        self.debug
    }
}

} // verus!
