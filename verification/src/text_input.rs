//! A one-line text input view for quick configuration edits: a title, an
//! optional subtitle and footer hint, the value being edited, and a
//! completion flag. Key handling is the logic here; what the caller does
//! with an accepted value, and the drawing, live outside.

use vstd::prelude::*;

verus! {

/// The keys the input reacts to, with the modifiers that matter.
pub enum KeyCode {
    Esc,
    Enter,
    Backspace,
    Char(char),
    Other,
}

/// One key press: the key and whether a control or alt modifier was held.
pub struct KeyEvent {
    pub code: KeyCode,
    pub ctrl: bool,
    pub alt: bool,
}

/// The one-line text input.
pub struct TextInputView {
    title: String,
    subtitle: Option<String>,
    footer_hint: Option<String>,
    value: Vec<char>,
    complete: bool,
}

impl TextInputView {
    /// The value being edited.
    pub closed spec fn value_view(self) -> Seq<char> {
        self.value@
    }

    /// Whether the view is done (accepted or dismissed).
    pub closed spec fn complete(self) -> bool {
        self.complete
    }

    /// The title's characters.
    pub closed spec fn title_view(self) -> Seq<char> {
        self.title@
    }

    /// Whether a subtitle line is shown.
    pub closed spec fn has_subtitle(self) -> bool {
        self.subtitle is Some
    }

    /// Whether a footer hint line is shown.
    pub closed spec fn has_footer(self) -> bool {
        self.footer_hint is Some
    }

    /// A fresh view over an initial value; the caller keeps the action to
    /// run on acceptance and invokes it with what `handle_key_event`
    /// returns.
    pub fn new(
        title: String,
        subtitle: Option<String>,
        footer_hint: Option<String>,
        initial_value: Vec<char>,
    ) -> (r: TextInputView)
        ensures
            r.value_view() == initial_value@,
            !r.complete(),
            r.has_subtitle() == (subtitle is Some),
            r.has_footer() == (footer_hint is Some),
    {
        TextInputView { title, subtitle, footer_hint, value: initial_value, complete: false }
    }

    /// Handles one key press: escape dismisses; enter completes and hands
    /// the value out for the caller's accept action; backspace drops the
    /// last character; a plain character (no control or alt held) is
    /// appended; anything else does nothing.
    pub fn handle_key_event(&mut self, key: KeyEvent) -> (accepted: Option<Vec<char>>)
        ensures
            match key.code {
                KeyCode::Esc => {
                    &&& final(self).complete()
                    &&& final(self).value_view() == old(self).value_view()
                    &&& accepted is None
                },
                KeyCode::Enter => {
                    &&& final(self).complete()
                    &&& final(self).value_view() == old(self).value_view()
                    &&& accepted matches Some(v) && v@ == old(self).value_view()
                },
                KeyCode::Backspace => {
                    &&& final(self).complete() == old(self).complete()
                    &&& final(self).value_view() == (if old(self).value_view().len() > 0 {
                        old(self).value_view().drop_last()
                    } else {
                        old(self).value_view()
                    })
                    &&& accepted is None
                },
                KeyCode::Char(c) => {
                    &&& final(self).complete() == old(self).complete()
                    &&& final(self).value_view() == (if !key.ctrl && !key.alt {
                        old(self).value_view().push(c)
                    } else {
                        old(self).value_view()
                    })
                    &&& accepted is None
                },
                KeyCode::Other => {
                    &&& *final(self) == *old(self)
                    &&& accepted is None
                },
            },
    {
        match key.code {
            KeyCode::Esc => {
                self.complete = true;
                None
            },
            KeyCode::Enter => {
                self.complete = true;
                let v = vstd::slice::slice_to_vec(self.value.as_slice());
                Some(v)
            },
            KeyCode::Backspace => {
                let _popped = self.value.pop();
                proof {
                    if old(self).value_view().len() > 0 {
                        assert(self.value@ =~= old(self).value_view().drop_last());
                    }
                }
                None
            },
            KeyCode::Char(c) => {
                if !key.ctrl && !key.alt {
                    self.value.push(c);
                }
                None
            },
            KeyCode::Other => None,
        }
    }

    /// Whether the view is done.
    pub fn is_complete(&self) -> (r: bool)
        ensures
            r == self.complete(),
    {
        self.complete
    }

    /// A control-C always dismisses the view, and is reported handled.
    pub fn on_ctrl_c(&mut self) -> (r: bool)
        ensures
            final(self).complete(),
            final(self).value_view() == old(self).value_view(),
            r,
    {
        self.complete = true;
        true
    }

    /// The title line, for the renderer.
    pub fn title(&self) -> (r: &String)
        ensures
            r@ == self.title_view(),
    {
        &self.title
    }

    /// The subtitle line, if one is set.
    pub fn subtitle(&self) -> (r: &Option<String>)
        ensures
            (r is Some) == self.has_subtitle(),
    {
        &self.subtitle
    }

    /// The footer hint line, if one is set.
    pub fn footer_hint(&self) -> (r: &Option<String>)
        ensures
            (r is Some) == self.has_footer(),
    {
        &self.footer_hint
    }

    /// The value being edited, for the renderer.
    pub fn value(&self) -> (r: &Vec<char>)
        ensures
            r@ == self.value_view(),
    {
        &self.value
    }

    /// How many rows the view wants: title and input always, plus a
    /// subtitle and a spacer when a subtitle is set, plus a spacer and a
    /// footer when a footer hint is set.
    pub fn desired_height(&self, width: u16) -> (h: u16)
        ensures
            h == 2 + (if self.has_subtitle() {
                2int
            } else {
                0int
            }) + (if self.has_footer() {
                2int
            } else {
                0int
            }),
    {
        let mut h: u16 = 2;
        if self.subtitle.is_some() {
            h = h + 2;
        }
        if self.footer_hint.is_some() {
            h = h + 2;
        }
        h
    }
}

} // verus!
