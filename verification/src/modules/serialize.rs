use crate::modules::types::{content_views, Content, ContentView};
use vstd::prelude::*;

verus! {

/// The store of tracked items, in the order in which they are kept.
#[derive(Debug)]
pub struct ContentFile {
    pub content: Vec<Content>,
}

impl View for ContentFile {
    type V = Seq<ContentView>;

    open spec fn view(&self) -> Seq<ContentView> {
        content_views(self.content@)
    }
}

impl Default for ContentFile {
    fn default() -> (file: Self)
        ensures
            file@ == Seq::<ContentView>::empty(),
    {
        let file = ContentFile { content: Vec::new() };
        assert(file@ =~= Seq::<ContentView>::empty());
        file
    }
}

impl Clone for ContentFile {
    fn clone(&self) -> (copy: Self)
        ensures
            copy@ == self@,
    {
        ContentFile::holding(&self.content)
    }
}

impl ContentFile {
    /// A store that holds a copy of `contents`, in their order.
    pub fn holding(contents: &Vec<Content>) -> (file: Self)
        ensures
            file@ == content_views(contents@),
    {
        let mut content: Vec<Content> = Vec::new();
        let mut i: usize = 0;
        while i < contents.len()
            invariant
                i <= contents.len(),
                content.len() == i,
                forall|j: int| 0 <= j < i ==> (#[trigger] content@[j])@ == contents@[j]@,
            decreases contents.len() - i,
        {
            content.push(contents[i].clone());
            i += 1;
        }
        assert(content_views(content@) =~= content_views(contents@));
        ContentFile { content }
    }
}

} // verus!
