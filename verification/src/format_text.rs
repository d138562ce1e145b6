//! The two ends of a run of the formatter: the arguments that it is started with,
//! and what its exit and its output come to.

use crate::configuration::Configuration;
use crate::language::LanguageVariant;
use vstd::prelude::*;
use vstd::utf8::{decode_utf8, valid_utf8};

verus! {

/// The text that `String::from_utf8_lossy` makes of bytes: their decoding, with
/// U+FFFD in place of each part that is not valid UTF-8.
pub uninterp spec fn lossy_text(bytes: Seq<u8>) -> Seq<char>;

/// Decodes bytes by `String::from_utf8_lossy`. Valid UTF-8 decodes to the text that
/// it encodes.
#[verifier::external_body]
fn decode_lossy(bytes: &[u8]) -> (text: String)
    ensures
        text@ == lossy_text(bytes@),
        valid_utf8(bytes@) ==> text@ == decode_utf8(bytes@),
{
    String::from_utf8_lossy(bytes).into_owned()
}

/// The arguments that say how to format: the configuration's, then the dialect's.
pub fn build_args(config: &Configuration, language: LanguageVariant) -> (args: Vec<String>)
    ensures
        args.deep_view() == config.args() + language.args(),
{
    let mut args: Vec<String> = Vec::new();
    assert(args.deep_view() =~= Seq::<Seq<char>>::empty());
    config.generate_args(&mut args);
    language.generate_args(&mut args);
    args
}

/// One argument of the formatter's command line.
#[derive(Debug, Clone, PartialEq, Eq)]
pub enum Argument {
    /// An argument that is passed as it stands.
    Text(String),
    /// The path of the file that holds the text to format.
    InputFile,
}

/// An [`Argument`] as specifications see it.
pub enum ArgumentText {
    Text(Seq<char>),
    InputFile,
}

impl View for Argument {
    type V = ArgumentText;

    open spec fn view(&self) -> ArgumentText {
        match self {
            Argument::Text(text) => ArgumentText::Text(text@),
            Argument::InputFile => ArgumentText::InputFile,
        }
    }
}

impl DeepView for Argument {
    type V = ArgumentText;

    open spec fn deep_view(&self) -> ArgumentText {
        self@
    }
}

/// The command line that formats a file: the arguments of the configuration, those
/// of the dialect, and the path of the input file as the last argument.
pub open spec fn command_line_of(config: Configuration, language: LanguageVariant) -> Seq<
    ArgumentText,
> {
    (config.args() + language.args()).map_values(|text: Seq<char>| ArgumentText::Text(text)).push(
        ArgumentText::InputFile,
    )
}

/// The command line that the formatter is started with. The caller puts the path of
/// the input file in the place of [`Argument::InputFile`].
pub fn command_line(config: &Configuration, language: LanguageVariant) -> (line: Vec<Argument>)
    ensures
        line.deep_view() == command_line_of(*config, language),
{
    let options = build_args(config, language);
    let ghost texts = options.deep_view();
    let mut line: Vec<Argument> = Vec::new();
    for option in it: options
        invariant
            it.seq().len() == texts.len(),
            forall|i: int| 0 <= i < texts.len() ==> it.seq()[i]@ == texts[i],
            line@.len() == it.index(),
            forall|i: int| 0 <= i < line@.len() ==> line@[i]@ == ArgumentText::Text(texts[i]),
    {
        line.push(Argument::Text(option));
    }
    line.push(Argument::InputFile);
    assert(line.deep_view() =~= command_line_of(*config, language));
    line
}

/// What a finished run of the formatter comes to: on success the text that it wrote
/// to its standard output, as it stands, and otherwise the text that it wrote to its
/// standard error, as the message of the failure.
pub fn classify_exit(success: bool, stdout: &[u8], stderr: &[u8]) -> (result: Result<
    String,
    String,
>)
    ensures
        match result {
            Ok(text) => success && text@ == lossy_text(stdout@) && (valid_utf8(stdout@)
                ==> text@ == decode_utf8(stdout@)),
            Err(message) => !success && message@ == lossy_text(stderr@) && (valid_utf8(stderr@)
                ==> message@ == decode_utf8(stderr@)),
        },
{
    if !success {
        return Err(decode_lossy(stderr));
    }
    Ok(decode_lossy(stdout))
}

} // verus!
