//! Identifiers of cells.

use vstd::prelude::*;

use crate::text::texts;

verus! {

/// The identifier of a cell.
pub type CellId = String;

/// A letter, a digit, a hyphen or an underscore.
pub open spec fn is_id_char(c: char) -> bool {
    ||| 'a' <= c <= 'z'
    ||| 'A' <= c <= 'Z'
    ||| '0' <= c <= '9'
    ||| c == '-'
    ||| c == '_'
}

/// The notebook format wants an identifier to be 1 to 64 letters, digits, hyphens and underscores.
pub open spec fn valid_cell_id(id: Seq<char>) -> bool {
    &&& 1 <= id.len() <= 64
    &&& forall|i: int| 0 <= i < id.len() ==> is_id_char(#[trigger] id[i])
}

/// A digit of a number to the base 16, in lower case.
pub open spec fn is_hex_digit(c: char) -> bool {
    '0' <= c <= '9' || 'a' <= c <= 'f'
}

/// The usual text of a random UUID: groups of 8, 4, 4, 4 and 12 digits with hyphens in between, of
/// which the third starts with the version and the fourth with the variant.
pub open spec fn is_uuid_text(id: Seq<char>) -> bool {
    &&& id.len() == 36
    &&& forall|i: int|
        0 <= i < 36 ==> if i == 8 || i == 13 || i == 18 || i == 23 {
            #[trigger] id[i] == '-'
        } else {
            is_hex_digit(id[i])
        }
    &&& id[14] == '4'
    &&& id[19] == '8' || id[19] == '9' || id[19] == 'a' || id[19] == 'b'
}

/// The text of a UUID can serve as the identifier of a cell.
pub proof fn lemma_uuid_is_valid(id: Seq<char>)
    requires
        is_uuid_text(id),
    ensures
        valid_cell_id(id),
{
}

/// Where fresh identifiers come from, with a record of those that were drawn. The record is kept
/// for proofs only.
pub struct IdSource {
    drawn: Ghost<Seq<Seq<char>>>,
}

impl IdSource {
    /// The identifiers that were drawn, in their order.
    pub closed spec fn log(&self) -> Seq<Seq<char>> {
        self.drawn@
    }

    /// A source from which nothing was drawn yet.
    pub fn new() -> (source: IdSource)
        ensures
            source.log() == Seq::<Seq<char>>::empty(),
    {
        IdSource { drawn: Ghost(Seq::empty()) }
    }

    /// Calls `uuid::Uuid::new_v4`, and `to_string` on what it returns. The record gains what came
    /// out. Which identifier that is, is left to chance, and two calls are not claimed to differ;
    /// every one has the form of a random UUID. The machine is taken to have a source of random
    /// numbers.
    #[verifier::external_body]
    pub(crate) fn draw(&mut self) -> (id: String)
        ensures
            is_uuid_text(id@),
            final(self).log() == old(self).log().push(id@),
    {
        uuid::Uuid::new_v4().to_string()
    }

    /// Draws as many identifiers as asked for.
    pub(crate) fn draw_all(&mut self, count: usize) -> (ids: Vec<String>)
        ensures
            ids@.len() == count,
            forall|i: int| 0 <= i < count ==> is_uuid_text((#[trigger] ids@[i])@),
            final(self).log() == old(self).log() + texts(ids@),
    {
        let mut ids: Vec<String> = Vec::new();
        let ghost before = self.log();
        assert(before + texts(ids@) =~= before);
        while ids.len() < count
            invariant
                ids@.len() <= count,
                forall|i: int| 0 <= i < ids@.len() ==> is_uuid_text((#[trigger] ids@[i])@),
                self.log() == before + texts(ids@),
            decreases count - ids@.len(),
        {
            let ghost drawn = texts(ids@);
            ids.push(self.draw());
            assert(texts(ids@) =~= drawn.push(ids@.last()@));
            assert(before + drawn.push(ids@.last()@) =~= (before + drawn).push(ids@.last()@));
        }
        ids
    }
}

} // verus!
