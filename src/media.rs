//! A media aggregator: items that can summarise themselves.

use vstd::prelude::*;
use vstd::string::StringExecFns;

verus! {

/// Something that has a one-line summary.
pub trait Summary {
    /// The summary's text.
    spec fn summary(&self) -> Seq<char>;

    /// The summary.
    fn summarize(&self) -> (r: String)
        ensures
            r@ == self.summary(),
    ;
}

/// A news article.
pub struct NewsArticle {
    pub headline: String,
    pub location: String,
    pub author: String,
    pub content: String,
}

impl Summary for NewsArticle {
    /// The headline, the author and the location: "headline, by author
    /// (location)".
    open spec fn summary(&self) -> Seq<char> {
        self.headline@ + ", by "@ + self.author@ + " ("@ + self.location@ + ")"@
    }

    fn summarize(&self) -> (r: String) {
        let mut s = self.headline.clone();
        s.append(", by ");
        s.append(self.author.as_str());
        s.append(" (");
        s.append(self.location.as_str());
        s.append(")");
        s
    }
}

/// A short post.
pub struct Tweet {
    pub username: String,
    pub content: String,
    pub reply: bool,
    pub retweet: bool,
}

impl Summary for Tweet {
    /// The user name and the content: "username: content".
    open spec fn summary(&self) -> Seq<char> {
        self.username@ + ": "@ + self.content@
    }

    fn summarize(&self) -> (r: String) {
        let mut s = self.username.clone();
        s.append(": ");
        s.append(self.content.as_str());
        s
    }
}

/// The announcement of `item`: "Breaking news! " and its summary.
pub fn notify<T: Summary>(item: &T) -> (r: String)
    ensures
        r@ == "Breaking news! "@ + item.summary(),
{
    let mut s = String::from_str("Breaking news! ");
    let summary = item.summarize();
    s.append(summary.as_str());
    s
}

/// A conversion to text of one's own.
pub trait MyToString {
    fn to_string(&self) -> String;
}

} // verus!
