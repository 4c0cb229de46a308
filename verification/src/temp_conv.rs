//! The temperature converter: two text fields, one per scale. Editing one
//! field rewrites the other; text that is no integer changes nothing.

use crate::decimal::{
    format_int, int_text, is_integer_text, lemma_parsed_int_text, lemma_parsed_ok_iff, parse_i32,
    parsed, text_value, ParseError,
};
use crate::temperature::{
    celsius_of, celsius_to_fahrenheit, fahrenheit_of, fahrenheit_to_celsius,
    lemma_celsius_round_trip,
};
use vstd::prelude::*;

verus! {

/// The text that the converter last wrote into each field.
pub struct Fields {
    pub celsius: Seq<char>,
    pub fahrenheit: Seq<char>,
}

/// The state of the converter program. Its view is the pair of texts it last
/// wrote.
pub struct App {
    c_value: String,
    f_value: String,
}

impl View for App {
    type V = Fields;

    closed spec fn view(&self) -> Fields {
        Fields { celsius: self.c_value@, fahrenheit: self.f_value@ }
    }
}

/// What an edit of one field means for the other: the text to write there, or
/// the reason why nothing is written.
pub type Update = Result<String, ParseError>;

/// What one round of notifications asks of the screen. `None` leaves a field
/// alone, `Some(Ok(text))` writes `text` into it, and `Some(Err(_))` leaves it
/// alone and reports why.
pub struct Updates {
    pub fahrenheit: Option<Update>,
    pub celsius: Option<Update>,
}

/// An `Update` with its text as a sequence of characters.
pub open spec fn update_view(update: Update) -> Result<Seq<char>, ParseError> {
    match update {
        Ok(text) => Ok(text@),
        Err(e) => Err(e),
    }
}

/// The Fahrenheit text for an edit of the Celsius field.
pub open spec fn fahrenheit_for(celsius: Seq<char>) -> Result<Seq<char>, ParseError> {
    match parsed(celsius) {
        Ok(c) => Ok(int_text(fahrenheit_of(c))),
        Err(e) => Err(e),
    }
}

/// The Celsius text for an edit of the Fahrenheit field.
pub open spec fn celsius_for(fahrenheit: Seq<char>) -> Result<Seq<char>, ParseError> {
    match parsed(fahrenheit) {
        Ok(f) => Ok(int_text(celsius_of(f))),
        Err(e) => Err(e),
    }
}

/// The fields after the Celsius field was edited to `text`.
pub open spec fn after_celsius_edit(fields: Fields, text: Seq<char>) -> Fields {
    match fahrenheit_for(text) {
        Ok(fahrenheit) => Fields { fahrenheit, ..fields },
        Err(_) => fields,
    }
}

/// The fields after the Fahrenheit field was edited to `text`.
pub open spec fn after_fahrenheit_edit(fields: Fields, text: Seq<char>) -> Fields {
    match celsius_for(text) {
        Ok(celsius) => Fields { celsius, ..fields },
        Err(_) => fields,
    }
}

impl App {
    /// A converter that has written nothing yet.
    pub fn new() -> (app: Self)
        ensures
            app@.celsius.len() == 0,
            app@.fahrenheit.len() == 0,
    {
        App { c_value: String::new(), f_value: String::new() }
    }

    /// The text last written into the Celsius field.
    pub fn celsius_text(&self) -> (text: &str)
        ensures
            text@ == self@.celsius,
    {
        self.c_value.as_str()
    }

    /// The text last written into the Fahrenheit field.
    pub fn fahrenheit_text(&self) -> (text: &str)
        ensures
            text@ == self@.fahrenheit,
    {
        self.f_value.as_str()
    }

    /// The Celsius field now holds `text`. Where `text` is an integer, the
    /// Fahrenheit text is replaced and returned; otherwise nothing changes
    /// and the error says why.
    pub fn on_celsius_changed(&mut self, text: &str) -> (update: Update)
        ensures
            update_view(update) == fahrenheit_for(text@),
            final(self)@ == after_celsius_edit(old(self)@, text@),
    {
        match parse_i32(text) {
            Ok(c) => {
                let fahrenheit = format_int(celsius_to_fahrenheit(c));
                self.f_value = fahrenheit.clone();
                Ok(fahrenheit)
            },
            Err(e) => Err(e),
        }
    }

    /// The Fahrenheit field now holds `text`. Where `text` is an integer, the
    /// Celsius text is replaced and returned; otherwise nothing changes and
    /// the error says why.
    pub fn on_fahrenheit_changed(&mut self, text: &str) -> (update: Update)
        ensures
            update_view(update) == celsius_for(text@),
            final(self)@ == after_fahrenheit_edit(old(self)@, text@),
    {
        match parse_i32(text) {
            Ok(f) => {
                let celsius = format_int(fahrenheit_to_celsius(f));
                self.c_value = celsius.clone();
                Ok(celsius)
            },
            Err(e) => Err(e),
        }
    }

    /// Handles one round of notifications. Each argument is the new text of a
    /// field that reported an edit, or `None` where that field did not. The
    /// Celsius edit is taken first.
    pub fn handle_actions(
        &mut self,
        celsius_edit: Option<&str>,
        fahrenheit_edit: Option<&str>,
    ) -> (updates: Updates)
        ensures
            match celsius_edit {
                Some(text) => updates.fahrenheit matches Some(update) && update_view(update)
                    == fahrenheit_for(text@),
                None => updates.fahrenheit is None,
            },
            match fahrenheit_edit {
                Some(text) => updates.celsius matches Some(update) && update_view(update)
                    == celsius_for(text@),
                None => updates.celsius is None,
            },
            final(self)@ == {
                let fields = match celsius_edit {
                    Some(text) => after_celsius_edit(old(self)@, text@),
                    None => old(self)@,
                };
                match fahrenheit_edit {
                    Some(text) => after_fahrenheit_edit(fields, text@),
                    None => fields,
                }
            },
    {
        let fahrenheit = match celsius_edit {
            Some(text) => Some(self.on_celsius_changed(text)),
            None => None,
        };
        let celsius = match fahrenheit_edit {
            Some(text) => Some(self.on_fahrenheit_changed(text)),
            None => None,
        };
        Updates { fahrenheit, celsius }
    }
}

impl Default for App {
    fn default() -> (app: Self)
        ensures
            app@.celsius.len() == 0,
            app@.fahrenheit.len() == 0,
    {
        App::new()
    }
}

/// Typing the decimal text of `c` into the Celsius field writes the decimal
/// text of `c * 9 / 5 + 32` into the Fahrenheit field and leaves the Celsius
/// text alone.
pub proof fn lemma_celsius_edit_converts(fields: Fields, c: int)
    requires
        i32::MIN <= c <= i32::MAX,
    ensures
        fahrenheit_for(int_text(c)) == Ok::<Seq<char>, ParseError>(int_text(fahrenheit_of(c))),
        after_celsius_edit(fields, int_text(c)) == (Fields {
            fahrenheit: int_text(fahrenheit_of(c)),
            ..fields
        }),
{
    lemma_parsed_int_text(c);
}

/// Typing the decimal text of `f` into the Fahrenheit field writes the
/// decimal text of `(f - 32) * 5 / 9` into the Celsius field and leaves the
/// Fahrenheit text alone.
pub proof fn lemma_fahrenheit_edit_converts(fields: Fields, f: int)
    requires
        i32::MIN <= f <= i32::MAX,
    ensures
        celsius_for(int_text(f)) == Ok::<Seq<char>, ParseError>(int_text(celsius_of(f))),
        after_fahrenheit_edit(fields, int_text(f)) == (Fields {
            celsius: int_text(celsius_of(f)),
            ..fields
        }),
{
    lemma_parsed_int_text(f);
}

/// Feeding the Fahrenheit text that an edit of `c` degrees Celsius produced
/// back into the Fahrenheit field gives the Celsius text of the round trip,
/// which is the text of `c` again only for multiples of five.
pub proof fn lemma_edit_round_trip(c: int)
    requires
        i32::MIN <= c <= i32::MAX,
        i32::MIN <= fahrenheit_of(c) <= i32::MAX,
    ensures
        fahrenheit_for(int_text(c)) == Ok::<Seq<char>, ParseError>(int_text(fahrenheit_of(c))),
        celsius_for(int_text(fahrenheit_of(c))) == Ok::<Seq<char>, ParseError>(
            int_text(celsius_of(fahrenheit_of(c))),
        ),
        celsius_of(fahrenheit_of(c)) == c <==> c % 5 == 0,
{
    lemma_parsed_int_text(c);
    lemma_parsed_int_text(fahrenheit_of(c));
    lemma_celsius_round_trip(c);
}

/// Text that does not follow the grammar of an integer, or whose value does
/// not fit in 32 bits, changes neither field, whichever field it was typed
/// into; the edit is answered with an error.
pub proof fn lemma_bad_text_changes_nothing(fields: Fields, text: Seq<char>)
    requires
        !is_integer_text(text) || text_value(text) < i32::MIN || text_value(text) > i32::MAX,
    ensures
        after_celsius_edit(fields, text) == fields,
        after_fahrenheit_edit(fields, text) == fields,
        fahrenheit_for(text) is Err,
        celsius_for(text) is Err,
{
    lemma_parsed_ok_iff(text);
}

} // verus!
