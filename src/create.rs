//! The input logic of the project-creation form: a project name and a
//! language chosen from the language table, narrowed as the user types.

use vstd::prelude::*;
use vstd::string::*;
use crate::languages::{languages, table_names};
use crate::selection::Key;
use crate::text::{contains_text, lower_of, pop_char, push_char, str_equal, text_contains, to_lower};

verus! {

/// Which field of the form receives typed characters.
#[derive(Debug, Clone, Copy, PartialEq, Eq)]
pub enum EditMode {
    Name,
    Language,
}

/// What the form's event loop does after an event.
#[derive(Debug, Clone, Copy, PartialEq, Eq)]
pub enum FormStep {
    /// Redraw and wait for the next event.
    Continue,
    /// The form is complete: write the manifest.
    Done,
    /// Leave without writing anything.
    Quit,
}

/// The languages the form offers: the first name of each table entry, then
/// `UNKNOWN`.
pub open spec fn offered_languages() -> Seq<Seq<char>> {
    Seq::new(table_names().len(), |i: int| table_names()[i][0]).push("UNKNOWN"@)
}

/// The languages of `langs`, in order, whose lower-case form contains `q`.
pub open spec fn languages_containing(langs: Seq<Seq<char>>, q: Seq<char>) -> Seq<Seq<char>>
    decreases langs.len(),
{
    if langs.len() == 0 {
        Seq::empty()
    } else {
        let rest = languages_containing(langs.drop_last(), q);
        if contains_text(lower_of(langs.last()), q) {
            rest.push(langs.last())
        } else {
            rest
        }
    }
}

pub ghost struct FormState {
    pub name: Seq<char>,
    pub language: Seq<char>,
    pub mode: EditMode,
    pub languages: Seq<Seq<char>>,
    pub filtered: Seq<Seq<char>>,
}

/// The suggestions are the offered languages that contain the typed
/// language text, ignoring case.
pub open spec fn form_wf(s: FormState) -> bool {
    &&& s.languages == offered_languages()
    &&& s.filtered == languages_containing(s.languages, lower_of(s.language))
}

pub open spec fn popped(s: Seq<char>) -> Seq<char> {
    if s.len() > 0 {
        s.drop_last()
    } else {
        s
    }
}

/// What an event does to the form, and which step follows.
pub open spec fn form_step(b: FormState, key: Key, a: FormState, r: FormStep) -> bool {
    match key {
        Key::Tab => r == FormStep::Continue && a == (FormState {
            mode: if b.mode == EditMode::Name {
                EditMode::Language
            } else {
                EditMode::Name
            },
            ..b
        }),
        Key::Esc => r == FormStep::Quit && a == b,
        Key::Char { c, control: _ } => r == FormStep::Continue && if b.mode == EditMode::Name {
            a == (FormState { name: b.name.push(c), ..b })
        } else {
            a.language == b.language.push(c) && form_wf(a) && a == (FormState {
                language: a.language,
                filtered: a.filtered,
                ..b
            })
        },
        Key::Backspace => r == FormStep::Continue && if b.mode == EditMode::Name {
            a == (FormState { name: popped(b.name), ..b })
        } else {
            a.language == popped(b.language) && form_wf(a) && a == (FormState {
                language: a.language,
                filtered: a.filtered,
                ..b
            })
        },
        Key::Enter => if b.mode == EditMode::Name {
            r == FormStep::Continue && a == (FormState { mode: EditMode::Language, ..b })
        } else if b.filtered.len() == 1 {
            r == FormStep::Done && a == (FormState { language: b.filtered[0], ..b })
        } else {
            a == b && (r == if b.language == "UNKNOWN"@ {
                FormStep::Done
            } else {
                FormStep::Continue
            })
        },
        _ => r == FormStep::Continue && a == b,
    }
}

pub struct CreateApp {
    project_name: String,
    selected_language: String,
    edit_mode: EditMode,
    languages: Vec<String>,
    filtered_languages: Vec<String>,
}

impl View for CreateApp {
    type V = FormState;

    closed spec fn view(&self) -> FormState {
        FormState {
            name: self.project_name@,
            language: self.selected_language@,
            mode: self.edit_mode,
            languages: self.languages@.map_values(|s: String| s@),
            filtered: self.filtered_languages@.map_values(|s: String| s@),
        }
    }
}

proof fn lemma_containing_empty(langs: Seq<Seq<char>>, q: Seq<char>)
    requires
        q.len() == 0,
    ensures
        languages_containing(langs, q) == langs,
    decreases langs.len(),
{
    if langs.len() > 0 {
        lemma_containing_empty(langs.drop_last(), q);
        assert(lower_of(langs.last()).subrange(0int, 0int + q.len()) =~= q);
        assert(contains_text(lower_of(langs.last()), q));
        assert(langs.drop_last().push(langs.last()) =~= langs);
    }
}

/// The languages of `langs` whose lower-case form contains `q`.
fn filter_containing(langs: &Vec<String>, q: &str) -> (r: Vec<String>)
    ensures
        r@.map_values(|s: String| s@) == languages_containing(langs@.map_values(|s: String| s@), q@),
{
    let ghost all = langs@.map_values(|s: String| s@);
    let mut r: Vec<String> = Vec::new();
    let n = langs.len();
    let mut i: usize = 0;
    while i < n
        invariant
            n == langs@.len(),
            all == langs@.map_values(|s: String| s@),
            i <= n,
            r@.map_values(|s: String| s@) == languages_containing(all.subrange(0, i as int), q@),
        decreases n - i,
    {
        let lowered = to_lower(langs[i].as_str());
        proof {
            assert(all.subrange(0, i + 1).drop_last() =~= all.subrange(0, i as int));
            assert(all.subrange(0, i + 1).last() == langs@[i as int]@);
        }
        if text_contains(lowered.as_str(), q) {
            let ghost before = r@;
            r.push(langs[i].clone());
            proof {
                assert(r@.map_values(|s: String| s@) =~= before.map_values(|s: String| s@).push(
                    langs@[i as int]@,
                ));
            }
        }
        i = i + 1;
    }
    proof {
        assert(all.subrange(0, n as int) =~= all);
    }
    r
}

impl CreateApp {
    pub open spec fn wf(&self) -> bool {
        form_wf(self@)
    }

    /// A fresh form: the name prefilled with `default_name` (the current
    /// directory's name), no language typed, every language offered.
    pub fn new(default_name: String) -> (r: CreateApp)
        ensures
            r.wf(),
            r@.name == default_name@,
            r@.language.len() == 0,
            r@.mode == EditMode::Name,
            r@.languages == offered_languages(),
            r@.filtered == offered_languages(),
    {
        let table = languages();
        let mut offered: Vec<String> = Vec::new();
        let n = table.len();
        let mut i: usize = 0;
        while i < n
            invariant
                n == table@.len(),
                n == table_names().len(),
                i <= n,
                forall|k: int| 0 <= k < n ==> (#[trigger] table@[k]).names_view() == table_names()[k],
                offered@.map_values(|s: String| s@) =~= Seq::new(i as nat, |k: int| table_names()[k][0]),
            decreases n - i,
        {
            assert(table_names()[i as int].len() > 0);
            let first = String::from_str(table[i].names[0]);
            let ghost prev = offered@;
            proof {
                assert(table@[i as int].names_view()[0] == table@[i as int].names@[0]@);
            }
            offered.push(first);
            proof {
                assert(offered@.map_values(|s: String| s@) =~= prev.map_values(|s: String| s@).push(
                    first@,
                ));
            }
            i = i + 1;
        }
        proof {
            reveal_strlit("UNKNOWN");
        }
        offered.push(String::from_str("UNKNOWN"));
        let empty = String::new();
        let lowered = to_lower(empty.as_str());
        let filtered = filter_containing(&offered, lowered.as_str());
        proof {
            lemma_containing_empty(offered@.map_values(|s: String| s@), lowered@);
            assert(offered@.map_values(|s: String| s@) =~= offered_languages());
        }
        CreateApp {
            project_name: default_name,
            selected_language: empty,
            edit_mode: EditMode::Name,
            languages: offered,
            filtered_languages: filtered,
        }
    }

    /// Recomputes the suggestions for the typed language text.
    fn filter_languages(&mut self)
        requires
            old(self)@.languages == offered_languages(),
        ensures
            final(self).wf(),
            final(self)@ == (FormState { filtered: final(self)@.filtered, ..old(self)@ }),
    {
        let query = to_lower(self.selected_language.as_str());
        self.filtered_languages = filter_containing(&self.languages, query.as_str());
    }

    /// Applies one input event to the form. Once it is done, the form is read
    /// and no longer used.
    pub fn handle_input(&mut self, key: Key) -> (r: FormStep)
        requires
            old(self).wf(),
        ensures
            r != FormStep::Done ==> final(self).wf(),
            form_step(old(self)@, key, final(self)@, r),
    {
        match key {
            Key::Tab => {
                self.edit_mode = match self.edit_mode {
                    EditMode::Name => EditMode::Language,
                    EditMode::Language => EditMode::Name,
                };
                FormStep::Continue
            },
            Key::Esc => FormStep::Quit,
            Key::Char { c, control: _ } => {
                match self.edit_mode {
                    EditMode::Name => push_char(&mut self.project_name, c),
                    EditMode::Language => {
                        push_char(&mut self.selected_language, c);
                        self.filter_languages();
                    },
                }
                FormStep::Continue
            },
            Key::Backspace => {
                match self.edit_mode {
                    EditMode::Name => {
                        let _ = pop_char(&mut self.project_name);
                    },
                    EditMode::Language => {
                        let _ = pop_char(&mut self.selected_language);
                        self.filter_languages();
                    },
                }
                FormStep::Continue
            },
            Key::Enter => {
                match self.edit_mode {
                    EditMode::Name => {
                        self.edit_mode = EditMode::Language;
                        FormStep::Continue
                    },
                    EditMode::Language => {
                        if self.filtered_languages.len() == 1 {
                            self.selected_language = self.filtered_languages[0].clone();
                            FormStep::Done
                        } else {
                            proof {
                                reveal_strlit("UNKNOWN");
                            }
                            if str_equal(self.selected_language.as_str(), "UNKNOWN") {
                                FormStep::Done
                            } else {
                                FormStep::Continue
                            }
                        }
                    },
                }
            },
            _ => FormStep::Continue,
        }
    }

    pub fn project_name(&self) -> (r: &str)
        ensures
            r@ == self@.name,
    {
        self.project_name.as_str()
    }

    pub fn selected_language(&self) -> (r: &str)
        ensures
            r@ == self@.language,
    {
        self.selected_language.as_str()
    }

    pub fn edit_mode(&self) -> (r: EditMode)
        ensures
            r == self@.mode,
    {
        self.edit_mode
    }

    pub fn filtered_languages(&self) -> (r: &Vec<String>)
        ensures
            r@.map_values(|s: String| s@) == self@.filtered,
    {
        &self.filtered_languages
    }
}

} // verus!
