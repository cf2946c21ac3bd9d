//! Rendering of buffers for diagnostics.

use vstd::prelude::*;
use vstd::string::StringExecFns;
use crate::buffer::CellBuffer;
use crate::ctype::CellType;
use crate::render::{elide_shown, elided_shown, shown, shown_positions, views};
use crate::value::CellValue;

verus! {

/// Whether `texts` holds, for each cell that the elided rendering of
/// `cells` shows, a string that `show` can return for it.
pub open spec fn shows<F: Fn(CellValue) -> String>(
    cells: Seq<CellValue>,
    show: &F,
    texts: Seq<String>,
) -> bool {
    &&& texts.len() == shown(cells.len()).len()
    &&& forall|k: int|
        0 <= k < texts.len() ==> call_ensures(
            show,
            (cells[shown(cells.len())[k]],),
            #[trigger] texts[k],
        )
}

/// The rendering of a buffer of `n` cells of encoding `t`: the name of the
/// encoding, the word `CellBuffer` and, in parentheses, the texts of the
/// cells, elided where there are more than ten.
pub open spec fn buffer_text(t: CellType, texts: Seq<String>, n: nat) -> Seq<char> {
    t.name() + "CellBuffer("@ + elided_shown(views(texts), n) + ")"@
}

impl CellBuffer {
    /// Renders the buffer for diagnostics, with `show` giving the text of
    /// a cell. Of more than ten cells only the first five and the last five
    /// are shown.
    pub fn debug_with<F: Fn(CellValue) -> String>(&self, show: &F) -> (r: String)
        requires
            forall|c: CellValue| call_requires(show, (c,)),
        ensures
            exists|texts: Seq<String>|
                #[trigger] shows(self@, show, texts) && r@ == buffer_text(
                    self.tag(),
                    texts,
                    self@.len(),
                ),
    {
        let n = self.len();
        let positions = shown_positions(n);
        let mut texts: Vec<String> = Vec::new();
        let mut k: usize = 0;
        while k < positions.len()
            invariant
                k <= positions@.len(),
                n == self@.len(),
                positions@.len() == shown(n as nat).len(),
                forall|j: int| 0 <= j < positions@.len() ==> #[trigger] positions@[j] == shown(
                    n as nat,
                )[j],
                forall|j: int| 0 <= j < positions@.len() ==> #[trigger] positions@[j] < n,
                forall|c: CellValue| call_requires(show, (c,)),
                texts@.len() == k,
                forall|j: int|
                    0 <= j < k ==> call_ensures(
                        show,
                        (self@[shown(n as nat)[j]],),
                        #[trigger] texts@[j],
                    ),
            decreases positions@.len() - k,
        {
            let c = self.get(positions[k]);
            texts.push(show(c));
            k = k + 1;
        }
        let mut out = self.cell_type().to_string();
        out.append("CellBuffer(");
        out.append(elide_shown(&texts, n).as_str());
        out.append(")");
        assert(shows(self@, show, texts@) && out@ == buffer_text(self.tag(), texts@, self@.len()));
        out
    }
}

} // verus!
