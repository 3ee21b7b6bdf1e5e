//! What the translate hotkey does with a captured selection: turn the
//! capture outcome into exactly one event — a validated translation
//! request, a validation complaint, or a clipboard complaint. The capture
//! itself (clipboard reads and simulated keystrokes) happens outside the
//! library and hands its `Result` in here.

use vstd::prelude::*;

use crate::clipboard::SelectionError;
use crate::digits::spec_decimal;
use crate::digits::usize_to_string;
use crate::validation::text::TextValidationError;
use crate::validation::text::TextValidator;
use vstd::string::StringSliceAdditionalSpecFns;

verus! {

/// What a handled hotkey asks the application to do.
#[derive(Debug, Clone)]
pub enum TranslationEvent {
    TranslateRequest(String),
    CancelTranslation,
    ValidationError(String),
    ClipboardError(String),
}

/// The message shown for a failed capture.
pub open spec fn spec_capture_error_message(e: SelectionError) -> Seq<char> {
    match e {
        SelectionError::NoSelection => "Please select some text first"@,
        SelectionError::EmptySelection => "Please select some text first"@,
        SelectionError::OnlyWhitespace => "Selected text contains only whitespace"@,
        SelectionError::ClipboardTimeout(_) => "Failed to capture selection - please try again"@,
        SelectionError::ClipboardError(_) => "Failed to access clipboard"@,
        SelectionError::SimulationError => "Failed to access clipboard"@,
    }
}

/// The message shown for a rejected text.
pub open spec fn spec_validation_message(e: TextValidationError) -> Seq<char> {
    match e {
        TextValidationError::TooLong { length, max } => "Text is too long: "@ + spec_decimal(
            length as nat,
        ) + " characters (max: "@ + spec_decimal(max as nat) + ")"@,
        TextValidationError::TooShort { length, min } => "Text is too short: "@ + spec_decimal(
            length as nat,
        ) + " characters (min: "@ + spec_decimal(min as nat) + ")"@,
        TextValidationError::TooManyTokens { estimated, max } => "Text has too many tokens: ~"@
            + spec_decimal(estimated as nat) + " (max: "@ + spec_decimal(max as nat) + ")"@,
        TextValidationError::OnlyWhitespace => "Text contains only whitespace"@,
        TextValidationError::ContainsBinary => "Text contains binary data"@,
        TextValidationError::Empty => "No text selected"@,
    }
}

/// The message shown for a rejected text.
pub fn validation_message(e: &TextValidationError) -> (r: String)
    ensures
        r@ == spec_validation_message(*e),
{
    match e {
        TextValidationError::TooLong { length, max } => {
            let mut s = "Text is too long: ".to_owned();
            s.append(usize_to_string(*length).as_str());
            s.append(" characters (max: ");
            s.append(usize_to_string(*max).as_str());
            s.append(")");
            s
        },
        TextValidationError::TooShort { length, min } => {
            let mut s = "Text is too short: ".to_owned();
            s.append(usize_to_string(*length).as_str());
            s.append(" characters (min: ");
            s.append(usize_to_string(*min).as_str());
            s.append(")");
            s
        },
        TextValidationError::TooManyTokens { estimated, max } => {
            let mut s = "Text has too many tokens: ~".to_owned();
            s.append(usize_to_string(*estimated).as_str());
            s.append(" (max: ");
            s.append(usize_to_string(*max).as_str());
            s.append(")");
            s
        },
        TextValidationError::OnlyWhitespace => "Text contains only whitespace".to_owned(),
        TextValidationError::ContainsBinary => "Text contains binary data".to_owned(),
        TextValidationError::Empty => "No text selected".to_owned(),
    }
}

/// Turn one capture outcome into the event the translate hotkey raises: a
/// failed capture becomes a clipboard complaint, a captured text is
/// validated and becomes either the translation request (carrying the
/// processed text) or a validation complaint.
pub fn capture_event(validator: &TextValidator, captured: Result<String, SelectionError>) -> (r:
    TranslationEvent)
    ensures
        match captured {
            Err(e) => r matches TranslationEvent::ClipboardError(m) && m@
                == spec_capture_error_message(e),
            Ok(text) => match validator.spec_validate(text@) {
                Ok(p) => r matches TranslationEvent::TranslateRequest(s) && s@ == p,
                Err(ve) => r matches TranslationEvent::ValidationError(m) && m@
                    == spec_validation_message(ve),
            },
        },
{
    match captured {
        Err(e) => {
            let message: &str = match e {
                SelectionError::NoSelection => "Please select some text first",
                SelectionError::EmptySelection => "Please select some text first",
                SelectionError::OnlyWhitespace => "Selected text contains only whitespace",
                SelectionError::ClipboardTimeout(_) => {
                    "Failed to capture selection - please try again"
                },
                SelectionError::ClipboardError(_) => "Failed to access clipboard",
                SelectionError::SimulationError => "Failed to access clipboard",
            };
            TranslationEvent::ClipboardError(message.to_owned())
        },
        Ok(text) => {
            match validator.validate(text.as_str()) {
                Ok(validated) => TranslationEvent::TranslateRequest(validated),
                Err(ve) => TranslationEvent::ValidationError(validation_message(&ve)),
            }
        },
    }
}

/// Whether text should be split automatically before translation: only when
/// the behaviour switch is on and the text's byte length exceeds the limit.
pub fn should_auto_split(auto_split_long_text: bool, max_text_length: usize, text: &str) -> (r:
    bool)
    ensures
        r == (auto_split_long_text && (text.spec_bytes().len() as usize) > max_text_length),
{
    auto_split_long_text && text.len() > max_text_length
}

} // verus!
