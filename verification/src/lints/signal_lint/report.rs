//! The report of the signal lints, and its issues.
use vstd::prelude::*;

use crate::scan::{ParseError, ParseErrorView};
use crate::text::owned;

verus! {

#[derive(Debug)]
pub struct SignalLintParams {
    pub project_root: Option<String>,
}

pub ghost struct SignalLintParamsView {
    pub project_root: Option<Seq<char>>,
}

impl DeepView for SignalLintParams {
    type V = SignalLintParamsView;

    open spec fn deep_view(&self) -> SignalLintParamsView {
        SignalLintParamsView {
            project_root: self.project_root.deep_view(),
        }
    }
}

#[derive(Debug)]
pub struct SignalIssue {
    pub code: &'static str,
    pub message: String,
    pub file: String,
    pub line: usize,
    pub component: Option<String>,
    /// The signal that the issue is about, where the lint knows it.
    pub signal: Option<String>,
    /// Other codes that are reported for this signal of this component.
    pub related_codes: Vec<String>,
    /// Code to paste, where the lint can write some.
    pub fix: Option<String>,
}

pub ghost struct SignalIssueView {
    pub code: Seq<char>,
    pub message: Seq<char>,
    pub file: Seq<char>,
    pub line: usize,
    pub component: Option<Seq<char>>,
    pub signal: Option<Seq<char>>,
    pub related_codes: Seq<Seq<char>>,
    pub fix: Option<Seq<char>>,
}

impl DeepView for SignalIssue {
    type V = SignalIssueView;

    open spec fn deep_view(&self) -> SignalIssueView {
        SignalIssueView {
            code: self.code@,
            message: self.message@,
            file: self.file@,
            line: self.line,
            component: self.component.deep_view(),
            signal: self.signal.deep_view(),
            related_codes: self.related_codes.deep_view(),
            fix: self.fix.deep_view(),
        }
    }
}

#[derive(Debug)]
pub struct ContextSignalModule {
    pub file: String,
    pub name: String,
    pub provide_line: usize,
    pub use_line: usize,
}

pub ghost struct ContextSignalModuleView {
    pub file: Seq<char>,
    pub name: Seq<char>,
    pub provide_line: usize,
    pub use_line: usize,
}

impl DeepView for ContextSignalModule {
    type V = ContextSignalModuleView;

    open spec fn deep_view(&self) -> ContextSignalModuleView {
        ContextSignalModuleView {
            file: self.file@,
            name: self.name@,
            provide_line: self.provide_line,
            use_line: self.use_line,
        }
    }
}

#[derive(Debug)]
pub struct ContextSignalTriad {
    /// The modules, each with the suffix that its two functions share.
    pub modules: Vec<ContextSignalModule>,
    pub message: String,
}

pub ghost struct ContextSignalTriadView {
    pub modules: Seq<ContextSignalModuleView>,
    pub message: Seq<char>,
}

impl DeepView for ContextSignalTriad {
    type V = ContextSignalTriadView;

    open spec fn deep_view(&self) -> ContextSignalTriadView {
        ContextSignalTriadView {
            modules: self.modules.deep_view(),
            message: self.message@,
        }
    }
}

/// What the detector of sibling context signals saw, reported also where it is
/// below the threshold.
#[derive(Debug)]
pub struct ContextSignalTriadsSummary {
    /// Number of pairs `provide_X` and `use_X` in the project.
    pub detected: usize,
    pub threshold: usize,
    /// The suffixes of the pairs, by file and name.
    pub names: Vec<String>,
}

pub ghost struct ContextSignalTriadsSummaryView {
    pub detected: nat,
    pub threshold: usize,
    pub names: Seq<Seq<char>>,
}

impl DeepView for ContextSignalTriadsSummary {
    type V = ContextSignalTriadsSummaryView;

    open spec fn deep_view(&self) -> ContextSignalTriadsSummaryView {
        ContextSignalTriadsSummaryView {
            detected: self.detected as nat,
            threshold: self.threshold,
            names: self.names.deep_view(),
        }
    }
}

#[derive(Debug)]
pub struct SignalLintReport {
    pub issues: Vec<SignalIssue>,
    pub context_signal_triads: Vec<ContextSignalTriad>,
    pub context_signal_triads_summary: ContextSignalTriadsSummary,
    pub parse_errors: Vec<ParseError>,
}

pub ghost struct SignalLintReportView {
    pub issues: Seq<SignalIssueView>,
    pub context_signal_triads: Seq<ContextSignalTriadView>,
    pub context_signal_triads_summary: ContextSignalTriadsSummaryView,
    pub parse_errors: Seq<ParseErrorView>,
}

impl DeepView for SignalLintReport {
    type V = SignalLintReportView;

    open spec fn deep_view(&self) -> SignalLintReportView {
        SignalLintReportView {
            issues: self.issues.deep_view(),
            context_signal_triads: self.context_signal_triads.deep_view(),
            context_signal_triads_summary: self.context_signal_triads_summary.deep_view(),
            parse_errors: self.parse_errors.deep_view(),
        }
    }
}

/// An issue without related codes.
pub open spec fn issue(
    code: Seq<char>,
    message: Seq<char>,
    file: Seq<char>,
    line: usize,
    component: Seq<char>,
    signal: Option<Seq<char>>,
    fix: Option<Seq<char>>,
) -> SignalIssueView {
    SignalIssueView {
        code,
        message,
        file,
        line,
        component: Some(component),
        signal,
        related_codes: Seq::empty(),
        fix,
    }
}

pub fn issue_of(
    code: &'static str,
    message: String,
    file: &str,
    line: usize,
    component: &str,
    signal: Option<String>,
    fix: Option<String>,
) -> (r: SignalIssue)
    ensures
        r.deep_view() == issue(
            code@,
            message@,
            file@,
            line,
            component@,
            signal.deep_view(),
            fix.deep_view(),
        ),
{
    let r = SignalIssue {
        code,
        message,
        file: owned(file),
        line,
        component: Some(owned(component)),
        signal,
        related_codes: Vec::new(),
        fix,
    };
    assert(r.deep_view().related_codes =~= Seq::<Seq<char>>::empty());
    r
}

} // verus!
