//! Structured message content: roles, text parts, and their models.

use vstd::prelude::*;
use vstd::string::StringExecFns;

verus! {

/// One piece of a message. Only text is exercised by this engine; the union
/// shape leaves room for further kinds (function calls, blobs) later.
pub enum Part {
    Text { text: String },
}

/// Mathematical model of a `Part`.
#[verifier::ext_equal]
pub enum PartView {
    Text { text: Seq<char> },
}

impl View for Part {
    type V = PartView;

    open spec fn view(&self) -> PartView {
        match self {
            Part::Text { text } => PartView::Text { text: text@ },
        }
    }
}

impl PartView {
    /// The text this part contributes to the message.
    pub open spec fn text(self) -> Seq<char> {
        match self {
            PartView::Text { text } => text,
        }
    }
}

/// The views of a sequence of parts, elementwise.
pub open spec fn part_views(parts: Seq<Part>) -> Seq<PartView> {
    Seq::new(parts.len(), |i: int| parts[i]@)
}

impl Part {
    /// Builds a text part from a string slice.
    pub fn new_text(text: &str) -> (r: Part)
        ensures
            r@ == (PartView::Text { text: text@ }),
    {
        Part::Text { text: text.to_owned() }
    }

    /// Structure-preserving copy.
    pub fn duplicate(&self) -> (r: Part)
        ensures
            r@ == self@,
    {
        match self {
            Part::Text { text } => Part::Text { text: text.clone() },
        }
    }
}

/// Concatenation of the text carried by a sequence of parts, in order.
pub open spec fn parts_text(parts: Seq<PartView>) -> Seq<char>
    decreases parts.len(),
{
    if parts.len() == 0 {
        Seq::<char>::empty()
    } else {
        parts_text(parts.drop_last()) + parts.last().text()
    }
}

/// A message unit: a role (such as "user" or "model") and an ordered
/// sequence of parts. The role is never empty; parts keep emission order.
pub struct Content {
    pub role: String,
    pub parts: Vec<Part>,
}

/// Mathematical model of a `Content`.
#[verifier::ext_equal]
pub struct ContentView {
    pub role: Seq<char>,
    pub parts: Seq<PartView>,
}

impl View for Content {
    type V = ContentView;

    open spec fn view(&self) -> ContentView {
        ContentView { role: self.role@, parts: part_views(self.parts@) }
    }
}

/// The views of a sequence of contents, elementwise.
pub open spec fn content_views(entries: Seq<Content>) -> Seq<ContentView> {
    Seq::new(entries.len(), |i: int| entries[i]@)
}

impl ContentView {
    /// A content is well formed when its role is non-empty.
    pub open spec fn wf(self) -> bool {
        self.role.len() > 0
    }

    /// All text carried by this content, in part order.
    pub open spec fn text(self) -> Seq<char> {
        parts_text(self.parts)
    }
}

impl Content {
    /// Builds an empty message with the given role.
    pub fn new(role: &str) -> (r: Content)
        requires
            role@.len() > 0,
        ensures
            r@ == (ContentView { role: role@, parts: Seq::<PartView>::empty() }),
            r@.wf(),
    {
        let c = Content { role: role.to_owned(), parts: Vec::new() };
        proof {
            assert(part_views(c.parts@) =~= Seq::<PartView>::empty());
        }
        c
    }

    /// Builder-style append of one text part.
    pub fn with_text(self, text: &str) -> (r: Content)
        ensures
            r@.role == self@.role,
            r@.parts == self@.parts.push((PartView::Text { text: text@ })),
    {
        let ghost pre = self.parts@;
        let mut c = self;
        c.parts.push(Part::Text { text: text.to_owned() });
        proof {
            assert(part_views(c.parts@) =~= part_views(pre).push(
                (PartView::Text { text: text@ }),
            ));
        }
        c
    }

    /// Structure-preserving copy.
    pub fn duplicate(&self) -> (r: Content)
        ensures
            r@ == self@,
    {
        let mut parts: Vec<Part> = Vec::new();
        let mut i: usize = 0;
        while i < self.parts.len()
            invariant
                i <= self.parts.len(),
                part_views(parts@) == part_views(self.parts@).subrange(0, i as int),
            decreases self.parts.len() - i,
        {
            let ghost pre = parts@;
            let d = self.parts[i].duplicate();
            parts.push(d);
            proof {
                assert(part_views(pre).len() == pre.len());
                assert(pre.len() == i);
                assert(parts@ == pre.push(d));
                assert(d@ == part_views(self.parts@)[i as int]);
                assert forall|j: int| 0 <= j < i + 1 implies #[trigger] part_views(parts@)[j]
                    == part_views(self.parts@)[j] by {
                    if j < i {
                        assert(part_views(pre)[j] == part_views(self.parts@).subrange(
                            0,
                            i as int,
                        )[j]);
                    }
                }
                assert(part_views(parts@) =~= part_views(self.parts@).subrange(
                    0,
                    (i + 1) as int,
                ));
            }
            i += 1;
        }
        let r = Content { role: self.role.clone(), parts };
        proof {
            assert(part_views(r.parts@) =~= part_views(self.parts@));
            assert(r@ =~= self@);
        }
        r
    }

    /// Joins the text of every part, in order.
    pub fn joined_text(&self) -> (r: String)
        ensures
            r@ == self@.text(),
    {
        let mut out = String::new();
        let mut i: usize = 0;
        while i < self.parts.len()
            invariant
                i <= self.parts.len(),
                out@ == parts_text(self@.parts.subrange(0, i as int)),
            decreases self.parts.len() - i,
        {
            match &self.parts[i] {
                Part::Text { text } => {
                    out.append(text.as_str());
                },
            }
            proof {
                let sub = self@.parts.subrange(0, i as int);
                let next = self@.parts.subrange(0, (i + 1) as int);
                assert(next =~= sub.push(self@.parts[i as int]));
                assert(next.drop_last() =~= sub);
                assert(parts_text(next) == parts_text(sub) + self@.parts[i as int].text());
            }
            i += 1;
        }
        proof {
            assert(self@.parts.subrange(0, self.parts.len() as int) =~= self@.parts);
        }
        out
    }
}

} // verus!
