use vstd::prelude::*;

verus! {

/// The command line: what to do.
#[derive(Clone, Debug)]
pub struct Args {
    pub subcommand: Subcommands,
}

/// The commands of the command line.
#[derive(Clone, Debug)]
pub enum Subcommands {
    /// Applies a given service plan.
    Apply(Apply),
}

/// Where a plan is applied: the path of its file, and the project, subproject
/// and environment it is applied to.
#[derive(Clone, Debug)]
pub struct Apply {
    pub plan: String,
    pub project: String,
    pub subproject: String,
    pub environment: String,
}

#[verifier::external_type_specification]
#[verifier::external_body]
pub struct ExProgressBar(indicatif::ProgressBar);

#[verifier::external_type_specification]
#[verifier::external_body]
pub struct ExTemplateError(indicatif::style::TemplateError);

/// Relies on indicatif: `ProgressStyle::with_template` reads the spinner's
/// template and `ProgressBar::new_spinner` makes a spinner showing `message`.
#[verifier::external_body]
pub fn build_spinner(message: &str) -> (r: Result<indicatif::ProgressBar, indicatif::style::TemplateError>) {
    let style = indicatif::ProgressStyle::with_template("{spinner:.yellow} {wide_msg:.cyan} {prefix}")?
        .tick_chars("|/-\\/-\\/");
    let progress_bar = indicatif::ProgressBar::new_spinner();
    progress_bar.set_message(message.to_string());
    progress_bar.set_style(style);
    Ok(progress_bar)
}

/// Relies on indicatif: `ProgressBar::enable_steady_tick` turns the spinner on a
/// background thread every 150 ms until it finishes.
#[verifier::external_body]
pub fn animate_spinner(progress_bar: indicatif::ProgressBar) -> (r: indicatif::ProgressBar) {
    progress_bar.enable_steady_tick(std::time::Duration::from_millis(150));
    progress_bar
}

/// Shows a turning spinner with `message`, until the returned bar is finished.
pub fn show_spinner(message: &str) -> (r: Result<indicatif::ProgressBar, indicatif::style::TemplateError>) {
    match build_spinner(message) {
        Ok(bar) => Ok(animate_spinner(bar)),
        Err(e) => Err(e),
    }
}

} // verus!
