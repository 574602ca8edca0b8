//! What formats are for: each placeholder shows what it is named after, and the text
//! around the placeholders is kept.

use vstd::prelude::*;
#[allow(unused_imports)]
use vstd::string::*;

#[allow(unused_imports)]
use crate::error::Error;
#[allow(unused_imports)]
use crate::format::{format_shown, format_values, formatted, weights_text, FormatValues};
#[allow(unused_imports)]
use crate::protocol::{SessionView, SplitAxis};
#[allow(unused_imports)]
use crate::text::{decimal, replaced, stands_at};

verus! {

/// The placeholders in the order in which they are replaced.
spec fn placeholder(k: int) -> Seq<char> {
    if k == 0 {
        "#{session_name}"@
    } else if k == 1 {
        "#{window_name}"@
    } else if k == 2 {
        "#{window_id}"@
    } else if k == 3 {
        "#{pane_id}"@
    } else if k == 4 {
        "#{window_index}"@
    } else if k == 5 {
        "#{pane_index}"@
    } else if k == 6 {
        "#{default_command}"@
    } else if k == 7 {
        "#{prefix_key}"@
    } else if k == 8 {
        "#{window_count}"@
    } else if k == 9 {
        "#{pane_count}"@
    } else if k == 10 {
        "#{window_active}"@
    } else if k == 11 {
        "#{pane_active}"@
    } else if k == 12 {
        "#{pane_width}"@
    } else if k == 13 {
        "#{pane_height}"@
    } else if k == 14 {
        "#{pane_weight}"@
    } else if k == 15 {
        "#{synchronize_panes}"@
    } else if k == 16 {
        "#{pane_weights}"@
    } else {
        "#{window_layout}"@
    }
}

/// What the placeholders stand for.
spec fn value_of(values: FormatValues, k: int) -> Seq<char> {
    if k == 0 {
        values.session_name
    } else if k == 1 {
        values.window_name
    } else if k == 2 {
        values.window_id
    } else if k == 3 {
        values.pane_id
    } else if k == 4 {
        values.window_index
    } else if k == 5 {
        values.pane_index
    } else if k == 6 {
        values.default_command
    } else if k == 7 {
        values.prefix_key
    } else if k == 8 {
        values.window_count
    } else if k == 9 {
        values.pane_count
    } else if k == 10 {
        values.window_active
    } else if k == 11 {
        values.pane_active
    } else if k == 12 {
        values.pane_width
    } else if k == 13 {
        values.pane_height
    } else if k == 14 {
        values.pane_weight
    } else if k == 15 {
        values.synchronize_panes
    } else if k == 16 {
        values.pane_weights
    } else {
        values.window_layout
    }
}

/// A text with the placeholders from the `from`th on replaced.
spec fn replaced_from(text: Seq<char>, values: FormatValues, from: int) -> Seq<char>
    decreases 18 - from,
{
    if from < 0 || from >= 18 {
        text
    } else {
        replaced_from(
            replaced(text, placeholder(from), value_of(values, from)),
            values,
            from + 1,
        )
    }
}

/// Whether a text is a placeholder: it opens once, at its start, and closes once, at
/// its end.
spec fn is_placeholder(text: Seq<char>) -> bool {
    &&& text.len() > 1
    &&& text[0] == '#'
    &&& text.last() == '}'
    &&& forall|i: int| 0 < i < text.len() ==> #[trigger] text[i] != '#'
    &&& forall|i: int| 0 <= i < text.len() - 1 ==> #[trigger] text[i] != '}'
}

proof fn lemma_is_placeholder(k: int)
    requires
        0 <= k < 18,
    ensures
        is_placeholder(placeholder(k)),
{
    reveal_strlit("#{session_name}");
    reveal_strlit("#{window_name}");
    reveal_strlit("#{window_id}");
    reveal_strlit("#{pane_id}");
    reveal_strlit("#{window_index}");
    reveal_strlit("#{pane_index}");
    reveal_strlit("#{default_command}");
    reveal_strlit("#{prefix_key}");
    reveal_strlit("#{window_count}");
    reveal_strlit("#{pane_count}");
    reveal_strlit("#{window_active}");
    reveal_strlit("#{pane_active}");
    reveal_strlit("#{pane_width}");
    reveal_strlit("#{pane_height}");
    reveal_strlit("#{pane_weight}");
    reveal_strlit("#{synchronize_panes}");
    reveal_strlit("#{pane_weights}");
    reveal_strlit("#{window_layout}");
}

proof fn lemma_placeholders_differ(j: int, k: int)
    requires
        0 <= j < k < 18,
    ensures
        placeholder(j) != placeholder(k),
{
    reveal_strlit("#{session_name}");
    reveal_strlit("#{window_name}");
    reveal_strlit("#{window_id}");
    reveal_strlit("#{pane_id}");
    reveal_strlit("#{window_index}");
    reveal_strlit("#{pane_index}");
    reveal_strlit("#{default_command}");
    reveal_strlit("#{prefix_key}");
    reveal_strlit("#{window_count}");
    reveal_strlit("#{pane_count}");
    reveal_strlit("#{window_active}");
    reveal_strlit("#{pane_active}");
    reveal_strlit("#{pane_width}");
    reveal_strlit("#{pane_height}");
    reveal_strlit("#{pane_weight}");
    reveal_strlit("#{synchronize_panes}");
    reveal_strlit("#{pane_weights}");
    reveal_strlit("#{window_layout}");
    assert("#{session_name}"@.len() == 15);
    assert("#{window_name}"@.len() == 14);
    assert("#{window_id}"@.len() == 12);
    assert("#{pane_id}"@.len() == 10);
    assert("#{window_index}"@.len() == 15);
    assert("#{pane_index}"@.len() == 13);
    assert("#{default_command}"@.len() == 18);
    assert("#{prefix_key}"@.len() == 13);
    assert("#{window_count}"@.len() == 15);
    assert("#{pane_count}"@.len() == 13);
    assert("#{window_active}"@.len() == 16);
    assert("#{pane_active}"@.len() == 14);
    assert("#{pane_width}"@.len() == 13);
    assert("#{pane_height}"@.len() == 14);
    assert("#{pane_weight}"@.len() == 14);
    assert("#{synchronize_panes}"@.len() == 20);
    assert("#{pane_weights}"@.len() == 15);
    assert("#{window_layout}"@.len() == 16);
    assert("#{session_name}"@[2] != "#{window_index}"@[2]);
    assert("#{session_name}"@[2] != "#{window_count}"@[2]);
    assert("#{session_name}"@[2] != "#{pane_weights}"@[2]);
    assert("#{window_name}"@[2] != "#{pane_active}"@[2]);
    assert("#{window_name}"@[2] != "#{pane_height}"@[2]);
    assert("#{window_name}"@[2] != "#{pane_weight}"@[2]);
    assert("#{window_index}"@[9] != "#{window_count}"@[9]);
    assert("#{window_index}"@[2] != "#{pane_weights}"@[2]);
    assert("#{pane_index}"@[3] != "#{prefix_key}"@[3]);
    assert("#{pane_index}"@[7] != "#{pane_count}"@[7]);
    assert("#{pane_index}"@[7] != "#{pane_width}"@[7]);
    assert("#{prefix_key}"@[3] != "#{pane_count}"@[3]);
    assert("#{prefix_key}"@[3] != "#{pane_width}"@[3]);
    assert("#{window_count}"@[2] != "#{pane_weights}"@[2]);
    assert("#{pane_count}"@[7] != "#{pane_width}"@[7]);
    assert("#{window_active}"@[9] != "#{window_layout}"@[9]);
    assert("#{pane_active}"@[7] != "#{pane_height}"@[7]);
    assert("#{pane_active}"@[7] != "#{pane_weight}"@[7]);
    assert("#{pane_height}"@[7] != "#{pane_weight}"@[7]);
}

/// What stands before any `#` is kept.
proof fn lemma_front_kept(front: Seq<char>, back: Seq<char>, needle: Seq<char>, value: Seq<char>)
    requires
        !front.contains('#'),
        is_placeholder(needle),
    ensures
        replaced(front + back, needle, value) == front + replaced(back, needle, value),
    decreases front.len(),
{
    if front.len() == 0 {
        assert(front + back =~= back);
        assert(front + replaced(back, needle, value) =~= replaced(back, needle, value));
    } else {
        let text = front + back;
        let rest = front.skip(1);
        assert(text[0] == front[0]);
        assert(front.contains(front[0]));
        assert(!stands_at(text, 0, needle)) by {
            if stands_at(text, 0, needle) {
                assert(text.subrange(0, needle.len() as int)[0] == needle[0]);
            }
        }
        assert(!rest.contains('#')) by {
            if rest.contains('#') {
                let i = choose|i: int| 0 <= i < rest.len() && rest[i] == '#';
                assert(front[i + 1] == '#');
            }
        }
        lemma_front_kept(rest, back, needle, value);
        assert(text.skip(1) =~= rest + back);
        if text.len() < needle.len() {
            assert(replaced(back, needle, value) == back);
        } else {
            assert(seq![text[0]] + (rest + replaced(back, needle, value)) =~= front + replaced(
                back,
                needle,
                value,
            ));
        }
    }
}

/// Another placeholder is kept.
proof fn lemma_other_kept(own: Seq<char>, back: Seq<char>, needle: Seq<char>, value: Seq<char>)
    requires
        is_placeholder(own),
        is_placeholder(needle),
        own != needle,
    ensures
        replaced(own + back, needle, value) == own + replaced(back, needle, value),
{
    let text = own + back;
    assert(!stands_at(text, 0, needle)) by {
        if stands_at(text, 0, needle) {
            let there = text.subrange(0, needle.len() as int);
            assert(there == needle);
            if needle.len() < own.len() {
                assert(there[needle.len() - 1] == own[needle.len() - 1]);
            } else if own.len() < needle.len() {
                assert(there[own.len() - 1] == own[own.len() - 1]);
            } else {
                assert(there =~= own);
            }
        }
    }
    let rest = own.skip(1);
    assert(!rest.contains('#')) by {
        if rest.contains('#') {
            let i = choose|i: int| 0 <= i < rest.len() && rest[i] == '#';
            assert(own[i + 1] == '#');
        }
    }
    lemma_front_kept(rest, back, needle, value);
    assert(text.skip(1) =~= rest + back);
    if text.len() < needle.len() {
        assert(replaced(back, needle, value) == back);
    } else {
        assert(seq![text[0]] + (rest + replaced(back, needle, value)) =~= own + replaced(
            back,
            needle,
            value,
        ));
    }
}

proof fn lemma_own_replaced(own: Seq<char>, back: Seq<char>, value: Seq<char>)
    requires
        is_placeholder(own),
    ensures
        replaced(own + back, own, value) == value + replaced(back, own, value),
{
    let text = own + back;
    assert(text.subrange(0, own.len() as int) =~= own);
    assert(stands_at(text, 0, own));
    assert(text.skip(own.len() as int) =~= back);
}

proof fn lemma_front_kept_from(front: Seq<char>, back: Seq<char>, values: FormatValues, from: int)
    requires
        !front.contains('#'),
        0 <= from <= 18,
    ensures
        replaced_from(front + back, values, from) == front + replaced_from(back, values, from),
    decreases 18 - from,
{
    if from < 18 {
        lemma_is_placeholder(from);
        let needle = placeholder(from);
        let value = value_of(values, from);
        lemma_front_kept(front, back, needle, value);
        lemma_front_kept_from(front, replaced(back, needle, value), values, from + 1);
    }
}

/// A placeholder behind a text without any is replaced by its value, and what follows
/// is replaced on its own.
proof fn lemma_replaced_from(
    front: Seq<char>,
    k: int,
    back: Seq<char>,
    values: FormatValues,
    from: int,
)
    requires
        !front.contains('#'),
        !value_of(values, k).contains('#'),
        0 <= from <= k < 18,
    ensures
        replaced_from(front + placeholder(k) + back, values, from) == front + value_of(values, k)
            + replaced_from(back, values, from),
    decreases 18 - from,
{
    let needle = placeholder(from);
    let value = value_of(values, from);
    let own = placeholder(k);
    let next = replaced(back, needle, value);
    lemma_is_placeholder(from);
    lemma_is_placeholder(k);
    assert(front + own + back =~= front + (own + back));
    lemma_front_kept(front, own + back, needle, value);
    if from == k {
        lemma_own_replaced(own, back, value);
        assert(front + (value + next) =~= front + value + next);
        assert(!(front + value).contains('#')) by {
            if (front + value).contains('#') {
                let i = choose|i: int| 0 <= i < (front + value).len() && (front + value)[i] == '#';
                if i < front.len() {
                    assert(front[i] == '#');
                } else {
                    assert(value[i - front.len()] == '#');
                }
            }
        }
        lemma_front_kept_from(front + value, next, values, from + 1);
    } else {
        lemma_placeholders_differ(from, k);
        lemma_other_kept(own, back, needle, value);
        assert(front + (own + next) =~= front + own + next);
        lemma_replaced_from(front, k, next, values, from + 1);
    }
}

proof fn lemma_formatted(format: Seq<char>, values: FormatValues)
    ensures
        formatted(format, values) == replaced_from(format, values, 0),
{
    reveal_with_fuel(replaced_from, 19);
}

proof fn lemma_shown(
    view: SessionView,
    window: int,
    pane: int,
    before: Seq<char>,
    k: int,
    after: Seq<char>,
)
    requires
        0 <= window < view.windows@.len(),
        0 <= pane < view.panes@.len(),
        !before.contains('#'),
        0 <= k < 18,
        !value_of(format_values(view, window, pane), k).contains('#'),
    ensures
        format_shown(view, window, pane, before + placeholder(k) + after) == Ok::<
            Seq<char>,
            Error,
        >(
            before + value_of(format_values(view, window, pane), k) + format_shown(
                view,
                window,
                pane,
                after,
            )->Ok_0,
        ),
{
    let values = format_values(view, window, pane);
    lemma_formatted(before + placeholder(k) + after, values);
    lemma_formatted(after, values);
    lemma_replaced_from(before, k, after, values, 0);
}

proof fn lemma_digits_plain(n: nat)
    ensures
        !decimal(n).contains('#'),
{
    crate::text::lemma_decimal_is_digits(n);
}

proof fn lemma_weights_plain(weights: Seq<u16>)
    ensures
        !weights_text(weights).contains('#'),
    decreases weights.len(),
{
    let text = weights_text(weights);
    if weights.len() > 0 {
        lemma_weights_plain(weights.drop_last());
        lemma_digits_plain(weights[0] as nat);
        lemma_digits_plain(weights.last() as nat);
        reveal_strlit(",");
        if weights.len() > 1 {
            let front = weights_text(weights.drop_last());
            let back = decimal(weights.last() as nat);
            if text.contains('#') {
                let i = choose|i: int| 0 <= i < text.len() && text[i] == '#';
                if i < front.len() {
                    assert(front[i] == '#');
                } else if i > front.len() {
                    assert(back[i - front.len() - 1] == '#');
                }
            }
        }
    }
}

/// A placeholder of a name, behind a text without any, shows that name as the view has
/// it; the text before it is kept, and what follows is shown as it is on its own.
/// Names and commands are meant that hold no `#`.
pub proof fn law_name_placeholders_show_names(
    view: SessionView,
    window: int,
    pane: int,
    before: Seq<char>,
    after: Seq<char>,
)
    requires
        0 <= window < view.windows@.len(),
        0 <= pane < view.panes@.len(),
        !before.contains('#'),
    ensures
        format_shown(view, window, pane, after) is Ok,
        !view.session@.contains('#') ==> format_shown(view, window, pane, before + "#{session_name}"@ + after) == Ok::<
            Seq<char>,
            Error,
        >(before + view.session@ + format_shown(view, window, pane, after)->Ok_0),
        !view.windows@[window].name@.contains('#') ==> format_shown(view, window, pane, before + "#{window_name}"@ + after) == Ok::<
            Seq<char>,
            Error,
        >(before + view.windows@[window].name@ + format_shown(view, window, pane, after)->Ok_0),
        (view.default_command matches Some(command) ==> !command@.contains('#')) ==> format_shown(view, window, pane, before + "#{default_command}"@ + after) == Ok::<
            Seq<char>,
            Error,
        >(before + (match view.default_command {
                Some(command) => command@,
                None => seq![],
            }) + format_shown(view, window, pane, after)->Ok_0),
        !view.prefix_key@.contains('#') ==> format_shown(view, window, pane, before + "#{prefix_key}"@ + after) == Ok::<
            Seq<char>,
            Error,
        >(before + view.prefix_key@ + format_shown(view, window, pane, after)->Ok_0),
        format_shown(view, window, pane, before + "#{window_layout}"@ + after) == Ok::<
            Seq<char>,
            Error,
        >(before + (if view.split_axis == SplitAxis::Horizontal {
                "even-horizontal"@
            } else {
                "even-vertical"@
            }) + format_shown(view, window, pane, after)->Ok_0),
{
    reveal_strlit("even-horizontal");
    reveal_strlit("even-vertical");
    assert(!"even-horizontal"@.contains('#'));
    assert(!"even-vertical"@.contains('#'));
    let values = format_values(view, window, pane);
    if !values.session_name.contains('#') {
        lemma_shown(view, window, pane, before, 0, after);
    }
    if !values.window_name.contains('#') {
        lemma_shown(view, window, pane, before, 1, after);
    }
    if !values.default_command.contains('#') {
        lemma_shown(view, window, pane, before, 6, after);
    }
    if !values.prefix_key.contains('#') {
        lemma_shown(view, window, pane, before, 7, after);
    }
    lemma_shown(view, window, pane, before, 17, after);
}

/// A placeholder of an id, a place or a count, behind a text without any, shows that
/// number of the chosen window, the chosen pane or the view, places counted from one;
/// the text before it is kept, and what follows is shown as it is on its own.
pub proof fn law_number_placeholders_show_numbers(
    view: SessionView,
    window: int,
    pane: int,
    before: Seq<char>,
    after: Seq<char>,
)
    requires
        0 <= window < view.windows@.len(),
        0 <= pane < view.panes@.len(),
        !before.contains('#'),
    ensures
        format_shown(view, window, pane, after) is Ok,
        format_shown(view, window, pane, before + "#{window_id}"@ + after) == Ok::<
            Seq<char>,
            Error,
        >(before + decimal(view.windows@[window].id as nat) + format_shown(view, window, pane, after)->Ok_0),
        format_shown(view, window, pane, before + "#{pane_id}"@ + after) == Ok::<
            Seq<char>,
            Error,
        >(before + decimal(view.panes@[pane].id as nat) + format_shown(view, window, pane, after)->Ok_0),
        format_shown(view, window, pane, before + "#{window_index}"@ + after) == Ok::<
            Seq<char>,
            Error,
        >(before + decimal((window + 1) as nat) + format_shown(view, window, pane, after)->Ok_0),
        format_shown(view, window, pane, before + "#{pane_index}"@ + after) == Ok::<
            Seq<char>,
            Error,
        >(before + decimal((pane + 1) as nat) + format_shown(view, window, pane, after)->Ok_0),
        format_shown(view, window, pane, before + "#{window_count}"@ + after) == Ok::<
            Seq<char>,
            Error,
        >(before + decimal(view.windows@.len()) + format_shown(view, window, pane, after)->Ok_0),
        format_shown(view, window, pane, before + "#{pane_count}"@ + after) == Ok::<
            Seq<char>,
            Error,
        >(before + decimal(view.panes@.len()) + format_shown(view, window, pane, after)->Ok_0),
{
    lemma_digits_plain(view.windows@[window].id as nat);
    lemma_digits_plain(view.panes@[pane].id as nat);
    lemma_digits_plain((window + 1) as nat);
    lemma_digits_plain((pane + 1) as nat);
    lemma_digits_plain(view.windows@.len());
    lemma_digits_plain(view.panes@.len());
    lemma_shown(view, window, pane, before, 2, after);
    lemma_shown(view, window, pane, before, 3, after);
    lemma_shown(view, window, pane, before, 4, after);
    lemma_shown(view, window, pane, before, 5, after);
    lemma_shown(view, window, pane, before, 8, after);
    lemma_shown(view, window, pane, before, 9, after);
}

/// A placeholder of a size or a weight, behind a text without any, shows the columns,
/// the rows or the weight of the chosen pane, or all weights; the text before it is
/// kept, and what follows is shown as it is on its own.
pub proof fn law_size_placeholders_show_sizes(
    view: SessionView,
    window: int,
    pane: int,
    before: Seq<char>,
    after: Seq<char>,
)
    requires
        0 <= window < view.windows@.len(),
        0 <= pane < view.panes@.len(),
        !before.contains('#'),
    ensures
        format_shown(view, window, pane, after) is Ok,
        format_shown(view, window, pane, before + "#{pane_width}"@ + after) == Ok::<
            Seq<char>,
            Error,
        >(before + decimal(view.panes@[pane].cols as nat) + format_shown(view, window, pane, after)->Ok_0),
        format_shown(view, window, pane, before + "#{pane_height}"@ + after) == Ok::<
            Seq<char>,
            Error,
        >(before + decimal(view.panes@[pane].rows as nat) + format_shown(view, window, pane, after)->Ok_0),
        format_shown(view, window, pane, before + "#{pane_weight}"@ + after) == Ok::<
            Seq<char>,
            Error,
        >(before + decimal(
                if pane < view.pane_weights@.len() {
                    view.pane_weights@[pane] as nat
                } else {
                    1
                },
            ) + format_shown(view, window, pane, after)->Ok_0),
        format_shown(view, window, pane, before + "#{pane_weights}"@ + after) == Ok::<
            Seq<char>,
            Error,
        >(before + weights_text(view.pane_weights@) + format_shown(view, window, pane, after)->Ok_0),
{
    lemma_digits_plain(view.panes@[pane].cols as nat);
    lemma_digits_plain(view.panes@[pane].rows as nat);
    lemma_digits_plain(
        if pane < view.pane_weights@.len() {
            view.pane_weights@[pane] as nat
        } else {
            1
        },
    );
    lemma_weights_plain(view.pane_weights@);
    lemma_shown(view, window, pane, before, 12, after);
    lemma_shown(view, window, pane, before, 13, after);
    lemma_shown(view, window, pane, before, 14, after);
    lemma_shown(view, window, pane, before, 16, after);
}

/// A placeholder of a flag, behind a text without any, shows one where the chosen window
/// or pane is the active one, or where the panes of the window are synchronized, and
/// zero otherwise; the text before it is kept, and what follows is shown as it is on its
/// own.
pub proof fn law_flag_placeholders_show_flags(
    view: SessionView,
    window: int,
    pane: int,
    before: Seq<char>,
    after: Seq<char>,
)
    requires
        0 <= window < view.windows@.len(),
        0 <= pane < view.panes@.len(),
        !before.contains('#'),
    ensures
        format_shown(view, window, pane, after) is Ok,
        format_shown(view, window, pane, before + "#{window_active}"@ + after) == Ok::<
            Seq<char>,
            Error,
        >(before + seq![if window == view.active_window {
                '1'
            } else {
                '0'
            }] + format_shown(view, window, pane, after)->Ok_0),
        format_shown(view, window, pane, before + "#{pane_active}"@ + after) == Ok::<
            Seq<char>,
            Error,
        >(before + seq![if pane == view.active_pane {
                '1'
            } else {
                '0'
            }] + format_shown(view, window, pane, after)->Ok_0),
        format_shown(view, window, pane, before + "#{synchronize_panes}"@ + after) == Ok::<
            Seq<char>,
            Error,
        >(before + seq![if view.windows@[window].synchronize_panes {
                '1'
            } else {
                '0'
            }] + format_shown(view, window, pane, after)->Ok_0),
{
    reveal_strlit("0");
    reveal_strlit("1");
    assert("0"@ =~= seq!['0']);
    assert("1"@ =~= seq!['1']);
    assert(!"0"@.contains('#'));
    assert(!"1"@.contains('#'));
    lemma_shown(view, window, pane, before, 10, after);
    lemma_shown(view, window, pane, before, 11, after);
    lemma_shown(view, window, pane, before, 15, after);
}

/// A format is shown exactly where there are such a window and such a pane; else it is told
/// which of them is missing, the window first.
pub proof fn law_format_needs_window_and_pane(
    view: SessionView,
    window: int,
    pane: int,
    format: Seq<char>,
)
    ensures
        format_shown(view, window, pane, format) is Ok <==> window < view.windows@.len() && pane
            < view.panes@.len(),
        window >= view.windows@.len() ==> format_shown(view, window, pane, format) == Err::<
            Seq<char>,
            Error,
        >(Error::ActiveWindowMissing),
        window < view.windows@.len() && pane >= view.panes@.len() ==> format_shown(
            view,
            window,
            pane,
            format,
        ) == Err::<Seq<char>, Error>(Error::ActivePaneMissing),
{
}

} // verus!
