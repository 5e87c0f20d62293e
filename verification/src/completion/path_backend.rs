//! Path completion.
//!
//! Typing `@` offers files and folders from one index of the workspace, in
//! which directories carry a trailing `/`.
use crate::completion::matcher::ranked;
use crate::completion::{
    best_items, best_places, first_items, item_views, Accept, CompletionBackendV2,
    CompletionContext, CompletionItem, CompletionRequest, CompletionResult, CompletionStatus,
};
use crate::text::texts;
use vstd::prelude::*;

verus! {

/// Completes paths.
pub struct PathCompleterBackend;

/// The item for a path.
pub open spec fn path_item(path: Seq<char>) -> CompletionItem<Seq<char>> {
    CompletionItem { display: path, replacement: path, accept: Accept::Insert }
}

/// Whether `out` is what is offered of an index of paths.
pub open spec fn offers_paths(
    paths: Seq<Seq<char>>,
    status: CompletionStatus<Seq<char>>,
    request: CompletionRequest,
    out: Option<CompletionResult>,
) -> bool {
    match out {
        None => false,
        Some(result) => {
            &&& result.range.start == request.range.start
            &&& result.range.end == request.range.end
            &&& result.status@ == status
            &&& best_items(
                result.items@,
                request.pattern@,
                paths,
                paths.map_values(|p: Seq<char>| path_item(p)),
            )
        },
    }
}

/// What is offered of an index of paths.
pub fn complete_path(
    paths: &Vec<String>,
    status: &CompletionStatus,
    request: &CompletionRequest,
) -> (out: Option<CompletionResult>)
    ensures
        offers_paths(texts(paths@), status@, *request, out),
{
    let places = best_places(request.pattern.as_str(), paths);
    let ghost chosen = choose|chosen: Seq<usize>| #[trigger]
        ranked(request.pattern@, texts(paths@), chosen) && places@ == if chosen.len()
            > crate::completion::MAX_SUGGESTIONS {
            chosen.take(crate::completion::MAX_SUGGESTIONS as int)
        } else {
            chosen
        };
    let mut items: Vec<CompletionItem> = Vec::new();
    let mut k: usize = 0;
    while k < places.len()
        invariant
            k <= places@.len(),
            items@.len() == k,
            forall|i: int| 0 <= i < places@.len() ==> #[trigger] places@[i] < paths@.len(),
            forall|i: int|
                0 <= i < k ==> (#[trigger] items@[i])@ == path_item(paths@[places@[i] as int]@),
        decreases places@.len() - k,
    {
        let path = &paths[places[k]];
        items.push(
            CompletionItem {
                display: path.clone(),
                replacement: path.clone(),
                accept: Accept::Insert,
            },
        );
        k += 1;
    }
    proof {
        let shown = texts(paths@).map_values(|p: Seq<char>| path_item(p));
        assert(ranked(request.pattern@, texts(paths@), chosen));
        assert(item_views(items@) =~= first_items(chosen, shown));
    }
    Some(
        CompletionResult {
            range: request.range.start..request.range.end,
            status: status.copy(),
            items,
        },
    )
}

impl CompletionBackendV2 for PathCompleterBackend {
    open spec fn trigger_char(&self) -> char {
        '@'
    }

    open spec fn offers(
        &self,
        request: CompletionRequest,
        context: CompletionContext,
        out: Option<CompletionResult>,
    ) -> bool {
        match context {
            CompletionContext::Paths(context) => offers_paths(
                texts(context.paths@),
                context.status@,
                request,
                out,
            ),
            _ => out is None,
        }
    }

    fn trigger(&self) -> (out: char) {
        '@'
    }

    fn complete(&self, request: &CompletionRequest, context: &CompletionContext) -> (out: Option<
        CompletionResult,
    >) {
        match context {
            CompletionContext::Paths(context) => complete_path(
                &context.paths,
                &context.status,
                request,
            ),
            _ => None,
        }
    }
}

} // verus!
