//! What is printed of a session: formats with placeholders, lists and captures.

use vstd::prelude::*;
#[allow(unused_imports)]
use vstd::string::*;

use crate::error::Error;
use crate::protocol::{PaneView, SessionView};
#[allow(unused_imports)]
use crate::render::texts;
#[allow(unused_imports)]
use crate::text::{decimal, replaced};
use crate::text::{contains_text, decimal_string, replace_all, trim_end};

verus! {

/// Which panes a capture shows.
#[derive(Debug, Clone, Copy, PartialEq, Eq, Structural)]
pub enum CaptureMode {
    ActivePane,
    AllPanes,
}

/// What the placeholders of a format stand for.
#[verifier::ext_equal]
pub struct FormatValues {
    pub session_name: Seq<char>,
    pub window_name: Seq<char>,
    pub window_id: Seq<char>,
    pub pane_id: Seq<char>,
    pub window_index: Seq<char>,
    pub pane_index: Seq<char>,
    pub default_command: Seq<char>,
    pub prefix_key: Seq<char>,
    pub window_count: Seq<char>,
    pub pane_count: Seq<char>,
    pub window_active: Seq<char>,
    pub pane_active: Seq<char>,
    pub pane_width: Seq<char>,
    pub pane_height: Seq<char>,
    pub pane_weight: Seq<char>,
    pub synchronize_panes: Seq<char>,
    pub pane_weights: Seq<char>,
    pub window_layout: Seq<char>,
}

/// A flag as it is printed.
pub open spec fn flag_text(flag: bool) -> Seq<char> {
    if flag {
        "1"@
    } else {
        "0"@
    }
}

/// Weights with a comma between each two.
pub open spec fn weights_text(weights: Seq<u16>) -> Seq<char>
    decreases weights.len(),
{
    if weights.len() == 0 {
        seq![]
    } else if weights.len() == 1 {
        decimal(weights[0] as nat)
    } else {
        weights_text(weights.drop_last()) + ","@ + decimal(weights.last() as nat)
    }
}

/// What the placeholders stand for in a window and a pane of a view.
pub open spec fn format_values(view: SessionView, window: int, pane: int) -> FormatValues {
    FormatValues {
        session_name: view.session@,
        window_name: view.windows@[window].name@,
        window_id: decimal(view.windows@[window].id as nat),
        pane_id: decimal(view.panes@[pane].id as nat),
        window_index: decimal((window + 1) as nat),
        pane_index: decimal((pane + 1) as nat),
        default_command: match view.default_command {
            Some(command) => command@,
            None => seq![],
        },
        prefix_key: view.prefix_key@,
        window_count: decimal(view.windows@.len()),
        pane_count: decimal(view.panes@.len()),
        window_active: flag_text(window == view.active_window),
        pane_active: flag_text(pane == view.active_pane),
        pane_width: decimal(view.panes@[pane].cols as nat),
        pane_height: decimal(view.panes@[pane].rows as nat),
        pane_weight: decimal(
            if pane < view.pane_weights@.len() {
                view.pane_weights@[pane] as nat
            } else {
                1
            },
        ),
        synchronize_panes: flag_text(view.windows@[window].synchronize_panes),
        pane_weights: weights_text(view.pane_weights@),
        window_layout: view.split_axis.layout_text(),
    }
}

/// A format with its placeholders replaced, one kind after another.
pub open spec fn formatted(format: Seq<char>, values: FormatValues) -> Seq<char> {
    let text = replaced(format, "#{session_name}"@, values.session_name);
    let text = replaced(text, "#{window_name}"@, values.window_name);
    let text = replaced(text, "#{window_id}"@, values.window_id);
    let text = replaced(text, "#{pane_id}"@, values.pane_id);
    let text = replaced(text, "#{window_index}"@, values.window_index);
    let text = replaced(text, "#{pane_index}"@, values.pane_index);
    let text = replaced(text, "#{default_command}"@, values.default_command);
    let text = replaced(text, "#{prefix_key}"@, values.prefix_key);
    let text = replaced(text, "#{window_count}"@, values.window_count);
    let text = replaced(text, "#{pane_count}"@, values.pane_count);
    let text = replaced(text, "#{window_active}"@, values.window_active);
    let text = replaced(text, "#{pane_active}"@, values.pane_active);
    let text = replaced(text, "#{pane_width}"@, values.pane_width);
    let text = replaced(text, "#{pane_height}"@, values.pane_height);
    let text = replaced(text, "#{pane_weight}"@, values.pane_weight);
    let text = replaced(text, "#{synchronize_panes}"@, values.synchronize_panes);
    let text = replaced(text, "#{pane_weights}"@, values.pane_weights);
    replaced(text, "#{window_layout}"@, values.window_layout)
}

/// What a format shows in a window and a pane of a view, where there are such.
pub open spec fn format_shown(view: SessionView, window: int, pane: int, format: Seq<char>) -> Result<
    Seq<char>,
    Error,
> {
    if window >= view.windows@.len() {
        Err(Error::ActiveWindowMissing)
    } else if pane >= view.panes@.len() {
        Err(Error::ActivePaneMissing)
    } else {
        Ok(formatted(format, format_values(view, window, pane)))
    }
}

/// A result with its text as a mathematical value.
pub open spec fn shown_text(result: Result<String, Error>) -> Result<Seq<char>, Error> {
    match result {
        Ok(text) => Ok(text@),
        Err(error) => Err(error),
    }
}

fn flag_string(flag: bool) -> (result: &'static str)
    ensures
        result@ == flag_text(flag),
{
    if flag {
        "1"
    } else {
        "0"
    }
}

fn weights_string(weights: &Vec<u16>) -> (result: String)
    ensures
        result@ == weights_text(weights@),
{
    let mut text = String::new();
    let mut i: usize = 0;
    assert(text@ =~= seq![]);
    assert(weights@.take(0) =~= seq![]);
    while i < weights.len()
        invariant
            i <= weights@.len(),
            text@ == weights_text(weights@.take(i as int)),
        decreases weights@.len() - i,
    {
        let ghost so_far = weights@.take(i + 1);
        assert(so_far.drop_last() =~= weights@.take(i as int));
        if i == 0 {
            text = decimal_string(weights[i] as u128);
        } else {
            text = text.concat(",").concat(decimal_string(weights[i] as u128).as_str());
        }
        i = i + 1;
    }
    assert(weights@.take(i as int) =~= weights@);
    text
}

proof fn lemma_placeholders()
    ensures
        "#{session_name}"@.len() > 0,
        "#{window_name}"@.len() > 0,
        "#{window_id}"@.len() > 0,
        "#{pane_id}"@.len() > 0,
        "#{window_index}"@.len() > 0,
        "#{pane_index}"@.len() > 0,
        "#{default_command}"@.len() > 0,
        "#{prefix_key}"@.len() > 0,
        "#{window_count}"@.len() > 0,
        "#{pane_count}"@.len() > 0,
        "#{window_active}"@.len() > 0,
        "#{pane_active}"@.len() > 0,
        "#{pane_width}"@.len() > 0,
        "#{pane_height}"@.len() > 0,
        "#{pane_weight}"@.len() > 0,
        "#{synchronize_panes}"@.len() > 0,
        "#{pane_weights}"@.len() > 0,
        "#{window_layout}"@.len() > 0,
{
    reveal_strlit("#{session_name}");
    reveal_strlit("#{window_name}");
    reveal_strlit("#{window_id}");
    reveal_strlit("#{pane_id}");
    reveal_strlit("#{window_index}");
    reveal_strlit("#{pane_index}");
    reveal_strlit("#{default_command}");
    reveal_strlit("#{prefix_key}");
    reveal_strlit("#{window_count}");
    reveal_strlit("#{pane_count}");
    reveal_strlit("#{window_active}");
    reveal_strlit("#{pane_active}");
    reveal_strlit("#{pane_width}");
    reveal_strlit("#{pane_height}");
    reveal_strlit("#{pane_weight}");
    reveal_strlit("#{synchronize_panes}");
    reveal_strlit("#{pane_weights}");
    reveal_strlit("#{window_layout}");
}

/// What a format shows in the active window and pane of a view.
pub fn render_format(view: &SessionView, format: &str) -> (result: Result<String, Error>)
    ensures
        shown_text(result) == format_shown(
            *view,
            view.active_window as int,
            view.active_pane as int,
            format@,
        ),
{
    render_scoped_format(view, view.active_window, view.active_pane, format)
}

/// What a format shows in a window and a pane of a view.
pub fn render_scoped_format(
    view: &SessionView,
    window_index: usize,
    pane_index: usize,
    format: &str,
) -> (result: Result<String, Error>)
    ensures
        shown_text(result) == format_shown(
            *view,
            window_index as int,
            pane_index as int,
            format@,
        ),
{
    if window_index >= view.windows.len() {
        return Err(Error::ActiveWindowMissing);
    }
    if pane_index >= view.panes.len() {
        return Err(Error::ActivePaneMissing);
    }
    let window = &view.windows[window_index];
    let pane = &view.panes[pane_index];
    let window_id = decimal_string(window.id as u128);
    let pane_id = decimal_string(pane.id as u128);
    let window_number = decimal_string(window_index as u128 + 1);
    let pane_number = decimal_string(pane_index as u128 + 1);
    let window_count = decimal_string(view.windows.len() as u128);
    let pane_count = decimal_string(view.panes.len() as u128);
    let default_command = match &view.default_command {
        Some(command) => command.as_str().to_string(),
        None => String::new(),
    };
    let pane_width = decimal_string(pane.cols as u128);
    let pane_height = decimal_string(pane.rows as u128);
    let weight: u16 = if pane_index < view.pane_weights.len() {
        view.pane_weights[pane_index]
    } else {
        1
    };
    let pane_weight = decimal_string(weight as u128);
    let pane_weights = weights_string(&view.pane_weights);
    let window_active = flag_string(window_index == view.active_window);
    let pane_active = flag_string(pane_index == view.active_pane);
    let synchronize_panes = flag_string(window.synchronize_panes);
    proof {
        lemma_placeholders();
        let values = format_values(*view, window_index as int, pane_index as int);
        assert(default_command@ =~= values.default_command);
    }
    let text = replace_all(format, "#{session_name}", view.session.as_str());
    let text = replace_all(text.as_str(), "#{window_name}", window.name.as_str());
    let text = replace_all(text.as_str(), "#{window_id}", window_id.as_str());
    let text = replace_all(text.as_str(), "#{pane_id}", pane_id.as_str());
    let text = replace_all(text.as_str(), "#{window_index}", window_number.as_str());
    let text = replace_all(text.as_str(), "#{pane_index}", pane_number.as_str());
    let text = replace_all(text.as_str(), "#{default_command}", default_command.as_str());
    let text = replace_all(text.as_str(), "#{prefix_key}", view.prefix_key.as_str());
    let text = replace_all(text.as_str(), "#{window_count}", window_count.as_str());
    let text = replace_all(text.as_str(), "#{pane_count}", pane_count.as_str());
    let text = replace_all(text.as_str(), "#{window_active}", window_active);
    let text = replace_all(text.as_str(), "#{pane_active}", pane_active);
    let text = replace_all(text.as_str(), "#{pane_width}", pane_width.as_str());
    let text = replace_all(text.as_str(), "#{pane_height}", pane_height.as_str());
    let text = replace_all(text.as_str(), "#{pane_weight}", pane_weight.as_str());
    let text = replace_all(text.as_str(), "#{synchronize_panes}", synchronize_panes);
    let text = replace_all(text.as_str(), "#{pane_weights}", pane_weights.as_str());
    let text = replace_all(text.as_str(), "#{window_layout}", view.split_axis.layout_name());
    Ok(text)
}

/// What a format shows in a window of a view and its active pane.
pub fn render_window_format(view: &SessionView, window_index: usize, format: &str) -> (result:
    Result<String, Error>)
    ensures
        shown_text(result) == format_shown(
            *view,
            window_index as int,
            view.active_pane as int,
            format@,
        ),
{
    render_scoped_format(view, window_index, view.active_pane, format)
}

/// What a format shows in a pane of the active window of a view.
pub fn render_pane_format(view: &SessionView, pane_index: usize, format: &str) -> (result: Result<
    String,
    Error,
>)
    ensures
        shown_text(result) == format_shown(
            *view,
            view.active_window as int,
            pane_index as int,
            format@,
        ),
{
    render_scoped_format(view, view.active_window, pane_index, format)
}

/// The mark of the active window or pane in a list.
pub open spec fn marker(active: bool) -> Seq<char> {
    if active {
        "*"@
    } else {
        " "@
    }
}

/// A window in a list.
pub open spec fn window_line(view: SessionView, i: int) -> Seq<char> {
    marker(i == view.active_window) + decimal((i + 1) as nat) + ":"@ + view.windows@[i].name@ + "#"@
        + decimal(view.windows@[i].id as nat)
}

/// A pane in a list.
pub open spec fn pane_line(view: SessionView, i: int) -> Seq<char> {
    marker(i == view.active_pane) + decimal((i + 1) as nat) + ":%"@ + decimal(
        view.panes@[i].id as nat,
    )
}

/// A bound key in a list.
pub open spec fn key_line(view: SessionView, i: int) -> Seq<char> {
    "bind-key "@ + seq![view.key_bindings@[i].key] + " "@
        + view.key_bindings@[i].command.command_text()
}

/// The windows of a view as they are listed: each by a format, or plainly.
pub fn list_windows(view: &SessionView, format: Option<&str>) -> (result: Result<
    Vec<String>,
    Error,
>)
    ensures
        match format {
            Some(format) => if view.windows@.len() > 0 && view.active_pane >= view.panes@.len() {
                result == Err::<Vec<String>, Error>(Error::ActivePaneMissing)
            } else {
                result matches Ok(lines) && texts(lines@) == Seq::new(
                    view.windows@.len(),
                    |i: int| formatted(format@, format_values(*view, i, view.active_pane as int)),
                )
            },
            None => result matches Ok(lines) && texts(lines@) == Seq::new(
                view.windows@.len(),
                |i: int| window_line(*view, i),
            ),
        },
{
    let mut lines: Vec<String> = Vec::new();
    let mut i: usize = 0;
    while i < view.windows.len()
        invariant
            i <= view.windows@.len(),
            lines@.len() == i,
            i > 0 && format is Some ==> view.active_pane < view.panes@.len(),
            forall|j: int|
                0 <= j < i ==> (#[trigger] lines@[j])@ == match format {
                    Some(format) => formatted(
                        format@,
                        format_values(*view, j, view.active_pane as int),
                    ),
                    None => window_line(*view, j),
                },
        decreases view.windows@.len() - i,
    {
        match format {
            Some(format) => match render_window_format(view, i, format) {
                Ok(line) => {
                    lines.push(line);
                },
                Err(error) => {
                    return Err(error);
                },
            },
            None => {
                let window = &view.windows[i];
                let mark = if i == view.active_window {
                    "*"
                } else {
                    " "
                };
                lines.push(
                    mark.to_string().concat(decimal_string(i as u128 + 1).as_str()).concat(
                        ":",
                    ).concat(window.name.as_str()).concat("#").concat(
                        decimal_string(window.id as u128).as_str(),
                    ),
                );
            },
        }
        i = i + 1;
    }
    proof {
        match format {
            Some(format) => {
                assert(texts(lines@) =~= Seq::new(
                    view.windows@.len(),
                    |i: int| formatted(format@, format_values(*view, i, view.active_pane as int)),
                ));
            },
            None => {
                assert(texts(lines@) =~= Seq::new(
                    view.windows@.len(),
                    |i: int| window_line(*view, i),
                ));
            },
        }
    }
    Ok(lines)
}

/// The panes of a view as they are listed: each by a format, or plainly.
pub fn list_panes(view: &SessionView, format: Option<&str>) -> (result: Result<Vec<String>, Error>)
    ensures
        match format {
            Some(format) => if view.panes@.len() > 0 && view.active_window
                >= view.windows@.len() {
                result == Err::<Vec<String>, Error>(Error::ActiveWindowMissing)
            } else {
                result matches Ok(lines) && texts(lines@) == Seq::new(
                    view.panes@.len(),
                    |i: int| formatted(format@, format_values(*view, view.active_window as int, i)),
                )
            },
            None => result matches Ok(lines) && texts(lines@) == Seq::new(
                view.panes@.len(),
                |i: int| pane_line(*view, i),
            ),
        },
{
    let mut lines: Vec<String> = Vec::new();
    let mut i: usize = 0;
    while i < view.panes.len()
        invariant
            i <= view.panes@.len(),
            lines@.len() == i,
            i > 0 && format is Some ==> view.active_window < view.windows@.len(),
            forall|j: int|
                0 <= j < i ==> (#[trigger] lines@[j])@ == match format {
                    Some(format) => formatted(
                        format@,
                        format_values(*view, view.active_window as int, j),
                    ),
                    None => pane_line(*view, j),
                },
        decreases view.panes@.len() - i,
    {
        match format {
            Some(format) => match render_pane_format(view, i, format) {
                Ok(line) => {
                    lines.push(line);
                },
                Err(error) => {
                    return Err(error);
                },
            },
            None => {
                let mark = if i == view.active_pane {
                    "*"
                } else {
                    " "
                };
                lines.push(
                    mark.to_string().concat(decimal_string(i as u128 + 1).as_str()).concat(
                        ":%",
                    ).concat(decimal_string(view.panes[i].id as u128).as_str()),
                );
            },
        }
        i = i + 1;
    }
    proof {
        match format {
            Some(format) => {
                assert(texts(lines@) =~= Seq::new(
                    view.panes@.len(),
                    |i: int| formatted(format@, format_values(*view, view.active_window as int, i)),
                ));
            },
            None => {
                assert(texts(lines@) =~= Seq::new(
                    view.panes@.len(),
                    |i: int| pane_line(*view, i),
                ));
            },
        }
    }
    Ok(lines)
}

/// The bound keys of a view as they are listed.
pub fn list_keys(view: &SessionView) -> (result: Vec<String>)
    ensures
        texts(result@) == Seq::new(view.key_bindings@.len(), |i: int| key_line(*view, i)),
{
    let mut lines: Vec<String> = Vec::new();
    let mut i: usize = 0;
    while i < view.key_bindings.len()
        invariant
            i <= view.key_bindings@.len(),
            lines@.len() == i,
            forall|j: int| 0 <= j < i ==> (#[trigger] lines@[j])@ == key_line(*view, j),
        decreases view.key_bindings@.len() - i,
    {
        let binding = &view.key_bindings[i];
        let mut line = "bind-key ".to_string();
        line.push(binding.key);
        let line = line.concat(" ").concat(binding.command.command_name());
        assert(line@ =~= key_line(*view, i as int));
        lines.push(line);
        i = i + 1;
    }
    assert(texts(lines@) =~= Seq::new(view.key_bindings@.len(), |i: int| key_line(*view, i)));
    lines
}

/// A pane as it is captured: its id, and its lines without the white space at
/// their ends.
pub open spec fn pane_capture(pane: PaneView) -> Seq<Seq<char>> {
    seq!["== pane "@ + decimal(pane.id as nat) + " =="@] + Seq::new(
        pane.lines@.len(),
        |i: int| crate::text::trimmed_end(pane.lines@[i]@),
    )
}

/// Some panes as they are captured, one after another.
pub open spec fn panes_capture(panes: Seq<PaneView>) -> Seq<Seq<char>>
    decreases panes.len(),
{
    if panes.len() == 0 {
        seq![]
    } else {
        panes_capture(panes.drop_last()) + pane_capture(panes.last())
    }
}

fn capture_pane(pane: &PaneView) -> (result: Vec<String>)
    ensures
        texts(result@) == pane_capture(*pane),
{
    let mut lines: Vec<String> = Vec::new();
    lines.push(
        "== pane ".to_string().concat(decimal_string(pane.id as u128).as_str()).concat(" =="),
    );
    let mut i: usize = 0;
    while i < pane.lines.len()
        invariant
            i <= pane.lines@.len(),
            lines@.len() == i + 1,
            lines@[0]@ == "== pane "@ + decimal(pane.id as nat) + " =="@,
            forall|j: int|
                0 <= j < i ==> (#[trigger] lines@[j + 1])@ == crate::text::trimmed_end(
                    pane.lines@[j]@,
                ),
        decreases pane.lines@.len() - i,
    {
        lines.push(trim_end(pane.lines[i].as_str()));
        i = i + 1;
    }
    proof {
        let shown = texts(lines@);
        let wanted = pane_capture(*pane);
        assert(shown.len() == wanted.len());
        assert forall|k: int| 0 <= k < shown.len() implies shown[k] == wanted[k] by {
            if k > 0 {
                assert(lines@[(k - 1) + 1]@ == crate::text::trimmed_end(pane.lines@[k - 1]@));
            }
        }
        assert(shown =~= wanted);
    }
    lines
}

/// What a capture of a view prints.
pub fn capture_lines(view: &SessionView, mode: CaptureMode) -> (result: Vec<String>)
    ensures
        texts(result@) == match mode {
            CaptureMode::ActivePane => if view.active_pane < view.panes@.len() {
                pane_capture(view.panes@[view.active_pane as int])
            } else {
                seq![]
            },
            CaptureMode::AllPanes => panes_capture(view.panes@),
        },
{
    let mut lines: Vec<String> = Vec::new();
    assert(texts(lines@) =~= seq![]);
    match mode {
        CaptureMode::ActivePane => {
            if view.active_pane < view.panes.len() {
                return capture_pane(&view.panes[view.active_pane]);
            }
            lines
        },
        CaptureMode::AllPanes => {
            let mut i: usize = 0;
            assert(view.panes@.take(0) =~= seq![]);
            while i < view.panes.len()
                invariant
                    i <= view.panes@.len(),
                    texts(lines@) == panes_capture(view.panes@.take(i as int)),
                decreases view.panes@.len() - i,
            {
                let ghost before = texts(lines@);
                assert(view.panes@.take(i + 1).drop_last() =~= view.panes@.take(i as int));
                let mut own = capture_pane(&view.panes[i]);
                let ghost added = texts(own@);
                lines.append(&mut own);
                assert(texts(lines@) =~= before + added);
                i = i + 1;
            }
            assert(view.panes@.take(i as int) =~= view.panes@);
            lines
        },
    }
}

/// Whether a text stands in some line of the active pane.
pub open spec fn shows_text(view: SessionView, pattern: Seq<char>) -> bool {
    view.active_pane < view.panes@.len() && exists|i: int|
        0 <= i < view.panes@[view.active_pane as int].lines@.len() && crate::text::holds_text(
            (#[trigger] view.panes@[view.active_pane as int].lines@[i])@,
            pattern,
        )
}

pub fn view_contains(view: &SessionView, pattern: &str) -> (result: bool)
    ensures
        result == shows_text(*view, pattern@),
{
    if view.active_pane >= view.panes.len() {
        return false;
    }
    let lines = &view.panes[view.active_pane].lines;
    let mut i: usize = 0;
    while i < lines.len()
        invariant
            view.active_pane < view.panes@.len(),
            *lines == view.panes@[view.active_pane as int].lines,
            i <= lines@.len(),
            forall|j: int|
                0 <= j < i ==> !crate::text::holds_text((#[trigger] lines@[j])@, pattern@),
        decreases lines@.len() - i,
    {
        if contains_text(lines[i].as_str(), pattern) {
            assert(crate::text::holds_text(
                view.panes@[view.active_pane as int].lines@[i as int]@,
                pattern@,
            ));
            return true;
        }
        i = i + 1;
    }
    false
}

proof fn lemma_nothing_replaced(text: Seq<char>, needle: Seq<char>, value: Seq<char>)
    requires
        needle.len() > 0,
        !text.contains(needle[0]),
    ensures
        replaced(text, needle, value) == text,
    decreases text.len(),
{
    if text.len() > 0 {
        assert(text[0] != needle[0]);
        assert(!crate::text::stands_at(text, 0, needle)) by {
            if crate::text::stands_at(text, 0, needle) {
                assert(text[0] == needle[0]);
            }
        }
        let rest = text.skip(1);
        if rest.contains(needle[0]) {
            let i = choose|i: int| 0 <= i < rest.len() && rest[i] == needle[0];
            assert(text[i + 1] == needle[0]);
        }
        lemma_nothing_replaced(rest, needle, value);
        assert(seq![text[0]] + rest =~= text);
    }
}

/// A format without `#` shows itself.
pub proof fn law_plain_format_shows_itself(format: Seq<char>, values: FormatValues)
    requires
        !format.contains('#'),
    ensures
        formatted(format, values) == format,
{
    lemma_placeholders();
    reveal_strlit("#{session_name}");
    reveal_strlit("#{window_name}");
    reveal_strlit("#{window_id}");
    reveal_strlit("#{pane_id}");
    reveal_strlit("#{window_index}");
    reveal_strlit("#{pane_index}");
    reveal_strlit("#{default_command}");
    reveal_strlit("#{prefix_key}");
    reveal_strlit("#{window_count}");
    reveal_strlit("#{pane_count}");
    reveal_strlit("#{window_active}");
    reveal_strlit("#{pane_active}");
    reveal_strlit("#{pane_width}");
    reveal_strlit("#{pane_height}");
    reveal_strlit("#{pane_weight}");
    reveal_strlit("#{synchronize_panes}");
    reveal_strlit("#{pane_weights}");
    reveal_strlit("#{window_layout}");
    lemma_nothing_replaced(format, "#{session_name}"@, values.session_name);
    lemma_nothing_replaced(format, "#{window_name}"@, values.window_name);
    lemma_nothing_replaced(format, "#{window_id}"@, values.window_id);
    lemma_nothing_replaced(format, "#{pane_id}"@, values.pane_id);
    lemma_nothing_replaced(format, "#{window_index}"@, values.window_index);
    lemma_nothing_replaced(format, "#{pane_index}"@, values.pane_index);
    lemma_nothing_replaced(format, "#{default_command}"@, values.default_command);
    lemma_nothing_replaced(format, "#{prefix_key}"@, values.prefix_key);
    lemma_nothing_replaced(format, "#{window_count}"@, values.window_count);
    lemma_nothing_replaced(format, "#{pane_count}"@, values.pane_count);
    lemma_nothing_replaced(format, "#{window_active}"@, values.window_active);
    lemma_nothing_replaced(format, "#{pane_active}"@, values.pane_active);
    lemma_nothing_replaced(format, "#{pane_width}"@, values.pane_width);
    lemma_nothing_replaced(format, "#{pane_height}"@, values.pane_height);
    lemma_nothing_replaced(format, "#{pane_weight}"@, values.pane_weight);
    lemma_nothing_replaced(format, "#{synchronize_panes}"@, values.synchronize_panes);
    lemma_nothing_replaced(format, "#{pane_weights}"@, values.pane_weights);
    lemma_nothing_replaced(format, "#{window_layout}"@, values.window_layout);
}

} // verus!
