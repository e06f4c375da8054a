//! Opening the page in a browser window of its own: which browsers there
//! are, where Windows' registry records them, and the command that opens
//! the page.

use vstd::prelude::*;
use crate::text::{join_with, lemma_split_join, remove_char, split_on, split_string, without_char};

verus! {

/// The browsers the page can be opened in.
#[derive(Clone, Copy, Debug, PartialEq, Eq, Structural)]
pub enum BrowserKind {
    Chrome,
    Edge,
    Firefox,
}

/// A browser to open the page in.
#[derive(Clone, Copy, Debug)]
pub struct Browser {
    browser: BrowserKind,
}

impl Browser {
    /// Which browser this is.
    pub closed spec fn spec_kind(self) -> BrowserKind {
        self.browser
    }

    /// Google Chrome.
    pub fn chrome() -> (b: Browser)
        ensures
            b.spec_kind() == BrowserKind::Chrome,
    {
        Browser { browser: BrowserKind::Chrome }
    }

    /// Microsoft Edge.
    pub fn edge() -> (b: Browser)
        ensures
            b.spec_kind() == BrowserKind::Edge,
    {
        Browser { browser: BrowserKind::Edge }
    }

    /// Mozilla Firefox.
    pub fn firefox() -> (b: Browser)
        ensures
            b.spec_kind() == BrowserKind::Firefox,
    {
        Browser { browser: BrowserKind::Firefox }
    }

    /// Which browser this is.
    pub fn kind(&self) -> (k: BrowserKind)
        ensures
            k == self.spec_kind(),
    {
        self.browser
    }
}

/// The registry key, under the current user's and then the machine's hive,
/// whose values name Chrome's executable.
pub fn chrome_registry_key() -> (r: &'static str)
    ensures
        r@ == "SOFTWARE\\Microsoft\\Windows\\CurrentVersion\\App Paths\\chrome.exe"@,
{
    "SOFTWARE\\Microsoft\\Windows\\CurrentVersion\\App Paths\\chrome.exe"
}

/// The registry key, under the current user's and then the machine's hive,
/// whose subkeys are Firefox's installed versions.
pub fn firefox_registry_key() -> (r: &'static str)
    ensures
        r@ == "SOFTWARE\\Mozilla\\Mozilla Firefox"@,
{
    "SOFTWARE\\Mozilla\\Mozilla Firefox"
}

/// The command that starts Edge; Edge needs no lookup.
pub fn get_edge_windows() -> (r: Option<String>)
    ensures
        r matches Some(s) && s@ == "start msedge"@,
{
    Some(String::from_str("start msedge"))
}

/// A path read from the registry with its quotation marks taken out.
pub fn unquoted_path(raw: &str) -> (r: String)
    ensures
        r@ == without_char(raw@, '"'),
{
    remove_char(raw, '"')
}

/// The text that the arguments of the browser command are split from: the
/// page in an application window, in a new window.
pub open spec fn launch_text(url: Seq<char>) -> Seq<char> {
    "--app=http://"@ + url + " --new-window"@
}

/// The browser's arguments lose nothing of the page's address: no argument
/// holds a space, and joined with single spaces they give back
/// `--app=http://`, the whole of `url`, and ` --new-window`.
pub proof fn lemma_launch_arguments_keep_url(url: Seq<char>)
    ensures
        join_with(split_on(launch_text(url), ' '), ' ') == "--app=http://"@ + url + " --new-window"@,
        forall|i: int|
            0 <= i < split_on(launch_text(url), ' ').len() ==> !(#[trigger] split_on(
                launch_text(url),
                ' ',
            )[i]).contains(' '),
{
    lemma_split_join(launch_text(url), ' ');
}

/// A program to run and its arguments.
#[derive(Clone, Debug)]
pub struct LaunchCommand {
    pub program: String,
    pub args: Vec<String>,
}

/// The command that opens `url` with the browser found at `program`: the
/// arguments are the pieces of `--app=http://{url} --new-window` between
/// its spaces.
pub fn launch_command(program: String, url: &str) -> (r: LaunchCommand)
    ensures
        r.program == program,
        r.args@.len() == split_on(launch_text(url@), ' ').len(),
        forall|i: int|
            0 <= i < r.args@.len() ==> #[trigger] r.args@[i]@ == split_on(launch_text(url@), ' ')[i],
        join_with(r.args@.map_values(|a: String| a@), ' ') == "--app=http://"@ + url@
            + " --new-window"@,
{
    let mut text = String::from_str("--app=http://");
    text.append(url);
    text.append(" --new-window");
    let args = split_string(text.as_str(), ' ');
    proof {
        lemma_launch_arguments_keep_url(url@);
        assert(args@.map_values(|a: String| a@) =~= split_on(launch_text(url@), ' '));
    }
    LaunchCommand { program, args }
}

} // verus!
