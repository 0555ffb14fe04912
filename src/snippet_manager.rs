//! Snippets: stored commands that can be typed into a terminal.
use crate::models::Snippet;
use vstd::prelude::*;
use vstd::string::*;

verus! {

broadcast use vstd::string::to_string_from_display_ensures_for_str;

/// What typing a snippet sends: its command, then a newline.
pub open spec fn snippet_text(command: Seq<char>) -> Seq<char> {
    command + "\n"@
}

/// The texts sent for the snippets of `stored` whose ids are among `ids`, in
/// the stored order.
pub open spec fn inputs_for(stored: Seq<Snippet>, ids: Seq<String>) -> Seq<Seq<char>>
    decreases stored.len(),
{
    if stored.len() == 0 {
        Seq::empty()
    } else {
        let last = stored.last();
        inputs_for(stored.drop_last(), ids) + if exists|j: int|
            0 <= j < ids.len() && #[trigger] ids[j]@ == last.id@ {
            seq![snippet_text(last.command@)]
        } else {
            Seq::empty()
        }
    }
}

/// The snippets known to the application.
pub struct SnippetManager {
    snippets: Vec<Snippet>,
}

impl SnippetManager {
    pub closed spec fn stored(&self) -> Seq<Snippet> {
        self.snippets@
    }

    pub fn new() -> (r: Self)
        ensures
            r.stored() == Seq::<Snippet>::empty(),
    {
        SnippetManager { snippets: Vec::new() }
    }

    /// The text that running `snippet` types into a terminal.
    pub fn snippet_input(snippet: &Snippet) -> (r: String)
        ensures
            r@ == snippet_text(snippet.command@),
    {
        snippet.command.clone().concat("\n")
    }

    /// The texts to type on connecting, for the stored snippets whose ids
    /// are listed, in the stored order.
    pub fn inputs_on_connect(&self, snippet_ids: &Vec<String>) -> (r: Vec<String>)
        ensures
            r@.map_values(|s: String| s@) == inputs_for(self.stored(), snippet_ids@),
    {
        let mut out: Vec<String> = Vec::new();
        let mut i: usize = 0;
        while i < self.snippets.len()
            invariant
                i <= self.snippets@.len(),
                out@.map_values(|s: String| s@) == inputs_for(self.snippets@.take(i as int), snippet_ids@),
            decreases self.snippets@.len() - i,
        {
            let s = &self.snippets[i];
            let mut listed = false;
            let mut j: usize = 0;
            while j < snippet_ids.len()
                invariant
                    j <= snippet_ids@.len(),
                    listed <==> exists|k: int| 0 <= k < j && #[trigger] snippet_ids@[k]@ == s.id@,
                decreases snippet_ids@.len() - j,
            {
                if snippet_ids[j] == s.id {
                    listed = true;
                }
                j = j + 1;
            }
            let ghost before = out@;
            if listed {
                out.push(Self::snippet_input(s));
            }
            proof {
                let t = self.snippets@.take(i + 1);
                assert(t.drop_last() =~= self.snippets@.take(i as int));
                assert(t.last() == self.snippets@[i as int]);
                assert(out@.map_values(|s: String| s@) =~= before.map_values(|s: String| s@) + if listed {
                    seq![snippet_text(self.snippets@[i as int].command@)]
                } else {
                    Seq::empty()
                });
            }
            i = i + 1;
        }
        assert(self.snippets@.take(self.snippets@.len() as int) =~= self.snippets@);
        out
    }
}

} // verus!
