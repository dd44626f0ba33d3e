//! The ways in which a build can fail.

use vstd::prelude::*;
use vstd::string::StringExecFns;

verus! {

/// What went wrong.
#[derive(Debug, PartialEq, Eq)]
pub enum Error {
    /// No configuration file was found.
    ConfigNotFound,
    /// A configuration field was needed and had no value; the field's name.
    ConfigMissingValue(String),
    /// A key that the configuration does not have; the key.
    ConfigInvalidKey(String),
    /// A template was asked for that the catalog does not hold; its name.
    TemplateNotFound(String),
    /// A command could not be launched or did not succeed; the command line,
    /// then what is known of the failure.
    CommandFailed(String, String),
}

/// An error as specifications see it.
pub enum ErrorView {
    ConfigNotFound,
    ConfigMissingValue(Seq<char>),
    ConfigInvalidKey(Seq<char>),
    TemplateNotFound(Seq<char>),
    CommandFailed(Seq<char>, Seq<char>),
}

impl View for Error {
    type V = ErrorView;

    open spec fn view(&self) -> ErrorView {
        match self {
            Error::ConfigNotFound => ErrorView::ConfigNotFound,
            Error::ConfigMissingValue(field) => ErrorView::ConfigMissingValue(field@),
            Error::ConfigInvalidKey(key) => ErrorView::ConfigInvalidKey(key@),
            Error::TemplateNotFound(name) => ErrorView::TemplateNotFound(name@),
            Error::CommandFailed(command, detail) => ErrorView::CommandFailed(command@, detail@),
        }
    }
}

impl DeepView for Error {
    type V = ErrorView;

    open spec fn deep_view(&self) -> ErrorView {
        self@
    }
}

impl Clone for Error {
    fn clone(&self) -> (copy: Error)
        ensures
            copy@ == self@,
    {
        match self {
            Error::ConfigNotFound => Error::ConfigNotFound,
            Error::ConfigMissingValue(field) => Error::ConfigMissingValue(field.clone()),
            Error::ConfigInvalidKey(key) => Error::ConfigInvalidKey(key.clone()),
            Error::TemplateNotFound(name) => Error::TemplateNotFound(name.clone()),
            Error::CommandFailed(command, detail) => Error::CommandFailed(
                command.clone(),
                detail.clone(),
            ),
        }
    }
}

/// The words in which an error is reported.
pub open spec fn message_of(error: ErrorView) -> Seq<char> {
    match error {
        ErrorView::ConfigNotFound => "Config file not found"@,
        ErrorView::ConfigMissingValue(field) => "config missing needed value for `"@ + field
            + "`"@,
        ErrorView::ConfigInvalidKey(key) => "key `"@ + key + "` is invalid for the config"@,
        ErrorView::TemplateNotFound(name) => "The template `"@ + name
            + "` was not found in the template directory"@,
        ErrorView::CommandFailed(command, detail) => "Command '"@ + command
            + "' failed with error: "@ + detail,
    }
}

impl Error {
    /// The words in which this error is reported.
    pub fn message(&self) -> (text: String)
        ensures
            text@ == message_of(self@),
    {
        match self {
            Error::ConfigNotFound => String::from_str("Config file not found"),
            Error::ConfigMissingValue(field) => {
                let mut text = String::from_str("config missing needed value for `");
                text.append(field.as_str());
                text.append("`");
                text
            },
            Error::ConfigInvalidKey(key) => {
                let mut text = String::from_str("key `");
                text.append(key.as_str());
                text.append("` is invalid for the config");
                text
            },
            Error::TemplateNotFound(name) => {
                let mut text = String::from_str("The template `");
                text.append(name.as_str());
                text.append("` was not found in the template directory");
                text
            },
            Error::CommandFailed(command, detail) => {
                let mut text = String::from_str("Command '");
                text.append(command.as_str());
                text.append("' failed with error: ");
                text.append(detail.as_str());
                text
            },
        }
    }
}

} // verus!
