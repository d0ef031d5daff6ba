//! What can go wrong while a plan is loaded or a script is run.
//!
//! Each error carries the names it reports; `to_string` gives the sentence shown to the user.

use crate::calendar::DateError;
use std::borrow::Cow;
use vstd::prelude::*;
use yaml_rust::ScanError;

verus! {

/// A file that could not be read.
#[derive(Debug, Clone)]
pub struct FileNotFoundError<'a> {
    path: &'a str,
}

impl<'a> FileNotFoundError<'a> {
    /// The path that could not be read.
    pub closed spec fn path(&self) -> Seq<char> {
        self.path@
    }

    /// The error for the file at `path`.
    pub fn new(path: &'a str) -> (error: Self)
        ensures
            error.path() == path@,
    {
        Self { path }
    }

    /// The sentence that reports the error.
    pub fn to_string(&self) -> (message: String)
        ensures
            message@ == "Couldn't read file "@ + self.path(),
    {
        let mut message = String::from_str("Couldn't read file ");
        message.append(self.path);
        message
    }
}

/// No plan file serves the weekday.
#[derive(Debug, Clone)]
pub struct PlanNotFoundError {
    weekday: String,
}

impl PlanNotFoundError {
    /// The weekday that has no plan.
    pub closed spec fn weekday(&self) -> Seq<char> {
        self.weekday@
    }

    /// The error for the day `weekday`.
    pub fn new(weekday: Cow<'static, str>) -> (error: Self)
        ensures
            error.weekday() == weekday@,
    {
        match weekday {
            Cow::Borrowed(name) => Self { weekday: name.to_owned() },
            Cow::Owned(name) => Self { weekday: name },
        }
    }

    /// The sentence that reports the error.
    pub fn to_string(&self) -> (message: String)
        ensures
            message@ == "Plan for "@ + self.weekday() + " not found, not doing anything"@,
    {
        let mut message = String::from_str("Plan for ");
        message.append(self.weekday.as_str());
        message.append(" not found, not doing anything");
        message
    }
}

/// A plan lacks something that it must hold.
#[derive(Debug, Clone)]
pub struct RequiredAttributeMissingError {
    attribute: String,
    weekday: String,
}

impl RequiredAttributeMissingError {
    /// What is missing.
    pub closed spec fn attribute(&self) -> Seq<char> {
        self.attribute@
    }

    /// The plan that lacks it.
    pub closed spec fn weekday(&self) -> Seq<char> {
        self.weekday@
    }

    /// The error for `attribute`, which the plan of `weekday` lacks.
    pub fn new(attribute: &str, weekday: &str) -> (error: Self)
        ensures
            error.attribute() == attribute@,
            error.weekday() == weekday@,
    {
        Self { weekday: weekday.to_owned(), attribute: attribute.to_owned() }
    }

    /// The sentence that reports the error.
    pub fn to_string(&self) -> (message: String)
        ensures
            message@ == "Required attribute "@ + self.attribute() + " missing for "@
                + self.weekday() + " plan"@,
    {
        let mut message = String::from_str("Required attribute ");
        message.append(self.attribute.as_str());
        message.append(" missing for ");
        message.append(self.weekday.as_str());
        message.append(" plan");
        message
    }
}

/// A time of day that is not written as hours and minutes.
#[derive(Debug, Clone)]
pub struct BadTimeFormat {
    weekday: String,
}

impl BadTimeFormat {
    /// The plan that holds the time.
    pub closed spec fn weekday(&self) -> Seq<char> {
        self.weekday@
    }

    /// The error for a time in the plan of `weekday`.
    pub fn new(weekday: &str) -> (error: Self)
        ensures
            error.weekday() == weekday@,
    {
        Self { weekday: weekday.to_owned() }
    }

    /// The sentence that reports the error.
    pub fn to_string(&self) -> (message: String)
        ensures
            message@ == "Badly formated time in "@ + self.weekday()
                + ". Make sure it follows HH:MM format"@,
    {
        let mut message = String::from_str("Badly formated time in ");
        message.append(self.weekday.as_str());
        message.append(". Make sure it follows HH:MM format");
        message
    }
}

/// A script that ended with a disqualifying code, or that could not be run at all.
#[derive(Debug, Clone)]
pub struct ExecutionError;

impl ExecutionError {
    /// The sentence that reports the error.
    pub fn to_string(&self) -> (message: String)
        ensures
            message@ == "Script execution failed"@,
    {
        String::from_str("Script execution failed")
    }
}

/// Why a ledger could not be read.
#[derive(Debug)]
pub enum CacheError {
    /// The first line names no day.
    Header(DateError),
    /// A line after the first holds fewer than three words.
    Row,
}

/// Why a plan could not be loaded.
#[derive(Debug)]
pub enum PlanError {
    PlanNotFound(PlanNotFoundError),
    RequiredAttributeMissing(RequiredAttributeMissingError),
    BadTimeFormat(BadTimeFormat),
    /// The plan file is no well-formed document; the parser's report is kept.
    Syntax(ScanError),
    /// The ledger of the day could not be read.
    Cache(CacheError),
}

/// A plan error as plain values.
pub enum PlanFault {
    PlanNotFound { weekday: Seq<char> },
    RequiredAttributeMissing { attribute: Seq<char>, weekday: Seq<char> },
    BadTimeFormat { weekday: Seq<char> },
    Syntax,
    CacheHeader,
    CacheRow,
}

impl View for PlanError {
    type V = PlanFault;

    open spec fn view(&self) -> PlanFault {
        match self {
            PlanError::PlanNotFound(e) => PlanFault::PlanNotFound { weekday: e.weekday() },
            PlanError::RequiredAttributeMissing(e) => PlanFault::RequiredAttributeMissing {
                attribute: e.attribute(),
                weekday: e.weekday(),
            },
            PlanError::BadTimeFormat(e) => PlanFault::BadTimeFormat { weekday: e.weekday() },
            PlanError::Syntax(_) => PlanFault::Syntax,
            PlanError::Cache(CacheError::Header(_)) => PlanFault::CacheHeader,
            PlanError::Cache(CacheError::Row) => PlanFault::CacheRow,
        }
    }
}

impl PlanError {
    /// The error of a plan of `weekday` that lacks `attribute`.
    pub fn missing(attribute: &str, weekday: &str) -> (error: Self)
        ensures
            error@ == (PlanFault::RequiredAttributeMissing {
                attribute: attribute@,
                weekday: weekday@,
            }),
    {
        PlanError::RequiredAttributeMissing(RequiredAttributeMissingError::new(attribute, weekday))
    }

    /// The error of a plan of `weekday` that holds a time which cannot be read.
    pub fn bad_time(weekday: &str) -> (error: Self)
        ensures
            error@ == (PlanFault::BadTimeFormat { weekday: weekday@ }),
    {
        PlanError::BadTimeFormat(BadTimeFormat::new(weekday))
    }
}

} // verus!
