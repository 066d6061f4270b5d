//! The unit that a project keeps: a named pair of the place where a file is
//! expected and the place where its managed copy lies.

use vstd::prelude::*;
use crate::source::{summary_of, SourceSelector, SourceView};
use crate::variable_path::VariablePath;

verus! {

/// The name of a machine or profile. Two systems are the same where their
/// names are the same text.
pub type System = String;

/// One managed file: `destination` is where the user expects it, and where
/// the symbolic link stands; `source` is where the managed copy lies.
#[derive(Debug)]
pub struct Link {
    pub name: String,
    pub destination: VariablePath,
    pub source: SourceSelector,
}

/// A `Link` as a value of mathematics.
pub struct LinkView {
    pub name: Seq<char>,
    pub destination: Seq<char>,
    pub source: SourceView,
}

impl View for Link {
    type V = LinkView;

    open spec fn view(&self) -> LinkView {
        LinkView { name: self.name@, destination: self.destination@, source: self.source@ }
    }
}

impl Link {
    /// The link named `name` from `destination` to `source`.
    pub fn new(name: String, destination: VariablePath, source: SourceSelector) -> (link: Link)
        ensures
            link@ == (LinkView { name: name@, destination: destination@, source: source@ }),
    {
        Link { name, destination, source }
    }
}

/// The line that `describe` gives for a link.
pub open spec fn line_of(link: LinkView) -> Seq<char> {
    link.name + ": "@ + link.destination + " -> "@ + summary_of(link.source)
}

impl Link {
    /// The link as a line for the user: its name, its destination as it is
    /// written, and a summary of its source.
    pub fn describe(&self) -> (text: String)
        ensures
            text@ == line_of(self@),
    {
        let mut text = self.name.clone();
        text.append(": ");
        text.append(self.destination.as_str());
        text.append(" -> ");
        text.append(self.source.describe().as_str());
        text
    }
}

impl Clone for Link {
    fn clone(&self) -> (copy: Self)
        ensures
            copy@ == self@,
    {
        Link {
            name: self.name.clone(),
            destination: self.destination.clone(),
            source: self.source.clone(),
        }
    }
}

/// The links of a list, each as a value of mathematics.
pub open spec fn link_views(links: Seq<Link>) -> Seq<LinkView> {
    links.map_values(|l: Link| l@)
}

/// A copy of a list of links.
pub fn copy_links(links: &Vec<Link>) -> (copy: Vec<Link>)
    ensures
        link_views(copy@) == link_views(links@),
{
    let copy = links.clone();
    copy
}

} // verus!
