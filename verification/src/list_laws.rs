//! What lists and captures are for: every window, pane and key is listed in its place, with
//! the active one marked, and what is captured reads as the panes do.

use vstd::prelude::*;
#[allow(unused_imports)]
use vstd::string::*;

#[allow(unused_imports)]
use crate::format::{
    key_line, pane_capture, pane_line, panes_capture, shows_text, weights_text, window_line,
};
#[allow(unused_imports)]
use crate::options::bound_command_read;
#[allow(unused_imports)]
use crate::protocol::{BoundCommand, PaneView, SessionView};
#[allow(unused_imports)]
use crate::text::{decimal, white_space};
#[allow(unused_imports)]
use crate::view_laws::law_trimmed_text_ends_in_no_blank;

verus! {

/// In a list a `*` stands in front of the active window and a blank in front of every
/// other; then come its place, counted from one, its name and its id.
pub proof fn law_windows_are_listed(view: SessionView, i: int)
    requires
        0 <= i < view.windows@.len(),
    ensures
        window_line(view, i)[0] == '*' <==> i == view.active_window,
        window_line(view, i)[0] == ' ' <==> i != view.active_window,
        window_line(view, i).skip(1) == decimal((i + 1) as nat) + seq![':']
            + view.windows@[i].name@ + seq!['#'] + decimal(view.windows@[i].id as nat),
{
    reveal_strlit("*");
    reveal_strlit(" ");
    reveal_strlit(":");
    reveal_strlit("#");
    assert(window_line(view, i)[0] == crate::format::marker(i == view.active_window)[0]);
    assert(":"@ =~= seq![':']);
    assert("#"@ =~= seq!['#']);
    assert(window_line(view, i).skip(1) =~= decimal((i + 1) as nat) + seq![':']
        + view.windows@[i].name@ + seq!['#'] + decimal(view.windows@[i].id as nat));
}

/// In a list a `*` stands in front of the active pane and a blank in front of every other;
/// then come its place, counted from one, and its id.
pub proof fn law_panes_are_listed(view: SessionView, i: int)
    requires
        0 <= i < view.panes@.len(),
    ensures
        pane_line(view, i)[0] == '*' <==> i == view.active_pane,
        pane_line(view, i)[0] == ' ' <==> i != view.active_pane,
        pane_line(view, i).skip(1) == decimal((i + 1) as nat) + seq![':', '%'] + decimal(
            view.panes@[i].id as nat,
        ),
{
    reveal_strlit("*");
    reveal_strlit(" ");
    reveal_strlit(":%");
    assert(pane_line(view, i)[0] == crate::format::marker(i == view.active_pane)[0]);
    assert(":%"@ =~= seq![':', '%']);
    assert(pane_line(view, i).skip(1) =~= decimal((i + 1) as nat) + seq![':', '%'] + decimal(
        view.panes@[i].id as nat,
    ));
}

/// A bound key is listed as the command line that binds it.
pub proof fn law_keys_are_listed(view: SessionView, i: int)
    requires
        0 <= i < view.key_bindings@.len(),
    ensures
        ({
            let line = key_line(view, i);
            &&& line.take(9) == "bind-key "@
            &&& line[9] == view.key_bindings@[i].key
            &&& line[10] == ' '
            &&& line.skip(11) == view.key_bindings@[i].command.command_text()
        }),
{
    reveal_strlit("bind-key ");
    reveal_strlit(" ");
    assert(key_line(view, i).take(9) =~= "bind-key "@);
    assert(key_line(view, i).skip(11) =~= view.key_bindings@[i].command.command_text());
}

/// A key is bound to what the words of the command line say.
pub proof fn law_words_bind_their_command(words: Seq<Seq<char>>)
    requires
        words.len() > 0,
    ensures
        ({
            let read = bound_command_read(words);
            &&& words[0] == "next-pane"@ ==> read == Some(BoundCommand::NextPane)
            &&& words[0] == "previous-pane"@ ==> read == Some(BoundCommand::PreviousPane)
            &&& words[0] == "kill-pane"@ ==> read == Some(BoundCommand::KillPane)
            &&& words[0] == "new-window"@ ==> read == Some(BoundCommand::NewWindow)
            &&& words[0] == "last-window"@ ==> read == Some(BoundCommand::LastWindow)
            &&& words[0] == "detach-client"@ || words[0] == "detach"@ ==> read == Some(
                BoundCommand::DetachClient,
            )
            &&& words == seq!["split-window"@] ==> read == Some(BoundCommand::SplitVertical)
            &&& forall|i: int|
                words[0] == "split-window"@ && 0 < i < words.len() && (#[trigger] words[i]
                    == "--horizontal"@ || words[i] == "-h"@) ==> read == Some(
                    BoundCommand::SplitHorizontal,
                )
            &&& words == seq!["select-layout"@, "next"@] ==> read == Some(
                BoundCommand::ToggleLayout,
            )
        }),
{
    reveal_strlit("split-window");
    reveal_strlit("new-window");
    reveal_strlit("next-pane");
    reveal_strlit("previous-pane");
    reveal_strlit("kill-pane");
    reveal_strlit("detach-client");
    reveal_strlit("detach");
    reveal_strlit("last-window");
    reveal_strlit("select-layout");
    reveal_strlit("next");
    assert("split-window"@[0] == 's' && "split-window"@.len() == 12);
    assert("new-window"@[0] == 'n' && "new-window"@.len() == 10);
    assert("next-pane"@[0] == 'n' && "next-pane"@.len() == 9);
    assert("previous-pane"@[0] == 'p' && "previous-pane"@.len() == 13);
    assert("kill-pane"@[0] == 'k' && "kill-pane"@.len() == 9);
    assert("detach-client"@[0] == 'd' && "detach-client"@.len() == 13);
    assert("detach"@[0] == 'd' && "detach"@.len() == 6);
    assert("last-window"@[0] == 'l' && "last-window"@.len() == 11);
    assert("select-layout"@[0] == 's' && "select-layout"@.len() == 13);
    if words == seq!["select-layout"@, "next"@] {
        assert(words[1] == "next"@);
    }
}

/// The names under which commands are listed tell them apart.
pub proof fn law_command_names(command: BoundCommand)
    ensures
        command == BoundCommand::NextPane <==> command.command_text() == "next-pane"@,
        command == BoundCommand::PreviousPane <==> command.command_text() == "previous-pane"@,
        command == BoundCommand::KillPane <==> command.command_text() == "kill-pane"@,
        command == BoundCommand::NewWindow <==> command.command_text() == "new-window"@,
        command == BoundCommand::LastWindow <==> command.command_text() == "last-window"@,
        command == BoundCommand::DetachClient <==> command.command_text() == "detach-client"@,
        command == BoundCommand::SplitVertical <==> command.command_text() == "split-window"@,
        command == BoundCommand::SplitHorizontal <==> command.command_text()
            == "split-window --horizontal"@,
        command == BoundCommand::ToggleLayout <==> command.command_text()
            == "select-layout next"@,
{
    reveal_strlit("split-window");
    reveal_strlit("split-window --horizontal");
    reveal_strlit("new-window");
    reveal_strlit("next-pane");
    reveal_strlit("previous-pane");
    reveal_strlit("kill-pane");
    reveal_strlit("detach-client");
    reveal_strlit("last-window");
    reveal_strlit("select-layout next");
    assert("next-pane"@[0] == 'n' && "next-pane"@.len() == 9);
    assert("kill-pane"@[0] == 'k' && "kill-pane"@.len() == 9);
    assert("previous-pane"@[0] == 'p' && "previous-pane"@.len() == 13);
    assert("detach-client"@[0] == 'd' && "detach-client"@.len() == 13);
    assert("new-window"@.len() == 10);
    assert("last-window"@.len() == 11);
    assert("split-window"@.len() == 12);
    assert("select-layout next"@.len() == 18);
    assert("split-window --horizontal"@.len() == 25);
}

/// A captured pane starts with a line that tells its id; then come its lines in order, each
/// without the white space at its end.
pub proof fn law_captured_pane_reads_as_it_does(pane: PaneView, row: int)
    requires
        0 <= row < pane.lines@.len(),
    ensures
        pane_capture(pane).len() == pane.lines@.len() + 1,
        pane_capture(pane)[0] == "== pane "@ + decimal(pane.id as nat) + " =="@,
        pane_capture(pane)[row + 1].is_prefix_of(pane.lines@[row]@),
        pane_capture(pane)[row + 1].len() > 0 ==> !white_space(pane_capture(pane)[row + 1].last()),
        forall|i: int|
            pane_capture(pane)[row + 1].len() <= i < pane.lines@[row]@.len() ==> white_space(
                #[trigger] pane.lines@[row]@[i],
            ),
{
    law_trimmed_text_ends_in_no_blank(pane.lines@[row]@);
}

/// Panes are captured one after another, in their order.
pub proof fn law_panes_are_captured_in_order(pane: PaneView, first: Seq<PaneView>, rest: Seq<PaneView>)
    ensures
        panes_capture(seq![]).len() == 0,
        panes_capture(seq![pane]) == pane_capture(pane),
        panes_capture(first + rest) == panes_capture(first) + panes_capture(rest),
    decreases rest.len(),
{
    let one = seq![pane];
    assert(one.drop_last() =~= seq![]);
    assert(panes_capture(one.drop_last()) =~= seq![]);
    assert(one.last() == pane);
    assert(panes_capture(one) =~= pane_capture(pane));
    if rest.len() == 0 {
        assert(first + rest =~= first);
        assert(panes_capture(first) + panes_capture(rest) =~= panes_capture(first));
    } else {
        law_panes_are_captured_in_order(pane, first, rest.drop_last());
        assert((first + rest).drop_last() =~= first + rest.drop_last());
        assert((first + rest).last() == rest.last());
        assert(panes_capture(first + rest) =~= panes_capture(first) + panes_capture(rest));
    }
}

/// Weights are written in their order, each as a number, with a comma between each two.
pub proof fn law_weights_are_written_in_order(weight: u16, first: Seq<u16>, rest: Seq<u16>)
    ensures
        weights_text(seq![weight]) == decimal(weight as nat),
        first.len() > 0 && rest.len() > 0 ==> weights_text(first + rest) == weights_text(first)
            + seq![','] + weights_text(rest),
    decreases rest.len(),
{
    reveal_strlit(",");
    assert(","@ =~= seq![',']);
    if first.len() > 0 && rest.len() > 0 {
        assert((first + rest).drop_last() =~= first + rest.drop_last());
        assert((first + rest).last() == rest.last());
        if rest.len() == 1 {
            assert(first + rest.drop_last() =~= first);
        } else {
            law_weights_are_written_in_order(weight, first, rest.drop_last());
        }
        assert(weights_text(first + rest) =~= weights_text(first) + seq![','] + weights_text(
            rest,
        ));
    }
}

/// A text is shown exactly where it stands in a line of the active pane; what is a part of
/// a text that is shown is shown too.
pub proof fn law_shown_text_stands_in_active_pane(
    view: SessionView,
    row: int,
    before: Seq<char>,
    text: Seq<char>,
    after: Seq<char>,
)
    requires
        view.active_pane < view.panes@.len(),
        0 <= row < view.panes@[view.active_pane as int].lines@.len(),
    ensures
        view.panes@[view.active_pane as int].lines@[row]@ == before + text + after ==> shows_text(
            view,
            text,
        ),
        (forall|i: int|
            0 <= i < view.panes@[view.active_pane as int].lines@.len() ==> !(
            #[trigger] view.panes@[view.active_pane as int].lines@[i])@.contains(text[0]))
            && text.len() > 0 ==> !shows_text(view, text),
{
    let lines = view.panes@[view.active_pane as int].lines@;
    let line = lines[row]@;
    if line == before + text + after {
        assert(line.subrange(before.len() as int, (before.len() + text.len()) as int) =~= text);
        assert(crate::text::stands_at(line, before.len() as int, text));
        assert(crate::text::holds_text(lines[row]@, text));
    }
    if text.len() > 0 && shows_text(view, text) {
        let i = choose|i: int|
            0 <= i < lines.len() && crate::text::holds_text((#[trigger] lines[i])@, text);
        let k = choose|k: int| crate::text::stands_at(lines[i]@, k, text);
        assert(lines[i]@.subrange(k, k + text.len())[0] == text[0]);
        assert(lines[i]@[k] == text[0]);
    }
}

} // verus!
