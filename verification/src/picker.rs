//! Interactive selection behind a trait, so that commands can be tested
//! with prepared answers.

use vstd::prelude::*;

use crate::text::to_string;

verus! {

/// Interactive prompting: a choice among options, or a line of text.
/// `Err` carries the reason no answer came (such as cancellation).
pub trait Picker {
    fn select(&mut self, prompt: &str, options: Vec<String>) -> Result<String, String>;

    fn text(&mut self, prompt: &str, default: Option<&str>, help_message: Option<&str>) -> Result<
        String,
        String,
    >;
}

/// A picker that answers with prepared values, in order.
pub struct MockPicker {
    pub select_values: Vec<String>,
    pub text_values: Vec<String>,
    select_idx: usize,
    text_idx: usize,
}

impl MockPicker {
    pub fn new(select_values: Vec<String>, text_values: Vec<String>) -> (p: Self)
        ensures
            p.selects() == select_values@,
            p.texts() == text_values@,
            p.selects_used() == 0,
            p.texts_used() == 0,
    {
        MockPicker { select_values, text_values, select_idx: 0, text_idx: 0 }
    }

    pub closed spec fn selects(&self) -> Seq<String> {
        self.select_values@
    }

    pub closed spec fn texts(&self) -> Seq<String> {
        self.text_values@
    }

    /// Number of selections answered or refused so far.
    pub closed spec fn selects_used(&self) -> nat {
        self.select_idx as nat
    }

    /// Number of text prompts answered or refused so far.
    pub closed spec fn texts_used(&self) -> nat {
        self.text_idx as nat
    }
}

impl Picker for MockPicker {
    fn select(&mut self, prompt: &str, options: Vec<String>) -> (r: Result<String, String>)
        ensures
            final(self).selects() == old(self).selects(),
            final(self).texts() == old(self).texts(),
            final(self).texts_used() == old(self).texts_used(),
            old(self).selects_used() < old(self).selects().len() ==> (r matches Ok(v) && v@ == old(self).selects()[old(self).selects_used() as int]@),
            old(self).selects_used() >= old(self).selects().len() ==> (r matches Err(e) && e@
                == "MockPicker: no more select values"@),
            final(self).selects_used() == (if old(self).selects_used() < usize::MAX {
                old(self).selects_used() + 1
            } else {
                old(self).selects_used()
            }),
    {
        let current = self.select_idx;
        if self.select_idx < usize::MAX {
            self.select_idx = self.select_idx + 1;
        }
        if current < self.select_values.len() {
            Ok(to_string(self.select_values[current].as_str()))
        } else {
            Err(to_string("MockPicker: no more select values"))
        }
    }

    fn text(&mut self, prompt: &str, default: Option<&str>, help_message: Option<&str>) -> (r:
        Result<String, String>)
        ensures
            final(self).selects() == old(self).selects(),
            final(self).texts() == old(self).texts(),
            final(self).selects_used() == old(self).selects_used(),
            old(self).texts_used() < old(self).texts().len() ==> (r matches Ok(v) && v@ == old(self).texts()[old(self).texts_used() as int]@),
            old(self).texts_used() >= old(self).texts().len() ==> (r matches Err(e) && e@
                == "MockPicker: no more text values"@),
            final(self).texts_used() == (if old(self).texts_used() < usize::MAX {
                old(self).texts_used() + 1
            } else {
                old(self).texts_used()
            }),
    {
        let current = self.text_idx;
        if self.text_idx < usize::MAX {
            self.text_idx = self.text_idx + 1;
        }
        if current < self.text_values.len() {
            Ok(to_string(self.text_values[current].as_str()))
        } else {
            Err(to_string("MockPicker: no more text values"))
        }
    }
}

} // verus!
