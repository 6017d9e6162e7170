//! What the verifier holds as well: the public instance and the record in
//! which it is stored.

use crate::field::{hex_text, FieldElement};
use vstd::prelude::*;

verus! {

/// The three public values of a proof. The two commitment slots are
/// reserved: a proof request fills them with zero.
#[derive(Clone, Copy, Debug, PartialEq, Eq, Structural)]
pub struct PublicInstance {
    /// Slot of the commitment to weights and bias.
    pub commit_wb: FieldElement,
    /// Slot of the commitment to the quantization remainder.
    pub commit_q: FieldElement,
    /// The public score.
    pub score_pub: FieldElement,
}

/// The record that is stored beside a proof.
#[derive(Clone, Debug)]
pub struct PublicRecord {
    /// Text of the first commitment slot.
    pub commit_wb: String,
    /// Text of the second commitment slot.
    pub commit_q: String,
    /// Text of the public score.
    pub score_pub: String,
    /// The instance columns, one value each.
    pub instances: Vec<Vec<FieldElement>>,
}

/// The columns as sequences of their values.
pub open spec fn column_values(columns: Seq<Vec<FieldElement>>) -> Seq<Seq<FieldElement>> {
    columns.map_values(|c: Vec<FieldElement>| c@)
}

impl PublicInstance {
    /// The instance columns: one column with one value for each slot.
    pub open spec fn columns_spec(&self) -> Seq<Seq<FieldElement>> {
        seq![seq![self.commit_wb], seq![self.commit_q], seq![self.score_pub]]
    }

    /// The instance of a score, with both commitment slots zero.
    pub fn for_score(score_pub: FieldElement) -> (r: PublicInstance)
        ensures
            r.commit_wb.value() == 0,
            r.commit_q.value() == 0,
            r.score_pub == score_pub,
    {
        PublicInstance {
            commit_wb: FieldElement::zero(),
            commit_q: FieldElement::zero(),
            score_pub,
        }
    }

    /// Lays the instance out in columns, as a backend takes it.
    pub fn columns(&self) -> (r: Vec<Vec<FieldElement>>)
        ensures
            column_values(r@) == self.columns_spec(),
    {
        let mut first: Vec<FieldElement> = Vec::new();
        first.push(self.commit_wb);
        let mut second: Vec<FieldElement> = Vec::new();
        second.push(self.commit_q);
        let mut third: Vec<FieldElement> = Vec::new();
        third.push(self.score_pub);
        let mut r: Vec<Vec<FieldElement>> = Vec::new();
        r.push(first);
        r.push(second);
        r.push(third);
        assert(column_values(r@) =~~= self.columns_spec());
        r
    }

    /// Reads an instance back from columns: there must be three, each with
    /// one value. What `columns` lays out is read back unchanged.
    pub fn from_columns(columns: &Vec<Vec<FieldElement>>) -> (r: Option<PublicInstance>)
        ensures
            r is Some <==> (columns@.len() == 3 && forall|i: int|
                0 <= i < 3 ==> (#[trigger] columns@[i])@.len() == 1),
            r is Some ==> r->0.columns_spec() == column_values(columns@),
            forall|p: PublicInstance|
                column_values(columns@) == #[trigger] p.columns_spec() ==> r == Some(p),
    {
        proof {
            assert forall|p: PublicInstance|
                column_values(columns@) == #[trigger] p.columns_spec() implies columns@.len() == 3
                && columns@[0]@.len() == 1 && columns@[1]@.len() == 1 && columns@[2]@.len()
                == 1 by {
                assert(column_values(columns@).len() == 3);
                assert(column_values(columns@)[0].len() == 1);
                assert(column_values(columns@)[1].len() == 1);
                assert(column_values(columns@)[2].len() == 1);
            }
        }
        if columns.len() != 3 {
            return None;
        }
        if columns[0].len() != 1 || columns[1].len() != 1 || columns[2].len() != 1 {
            return None;
        }
        let r = PublicInstance {
            commit_wb: columns[0][0],
            commit_q: columns[1][0],
            score_pub: columns[2][0],
        };
        assert(r.columns_spec() =~~= column_values(columns@));
        proof {
            assert forall|p: PublicInstance|
                column_values(columns@) == #[trigger] p.columns_spec() implies r == p by {
                Self::lemma_columns_determine_instance(r, p);
            }
        }
        Some(r)
    }

    /// Whether two instances agree slot by slot.
    pub fn matches(&self, other: &PublicInstance) -> (r: bool)
        ensures
            r == (*self == *other),
    {
        self.commit_wb == other.commit_wb && self.commit_q == other.commit_q && self.score_pub
            == other.score_pub
    }

    /// Instances with the same columns are the same instance.
    pub proof fn lemma_columns_determine_instance(a: PublicInstance, b: PublicInstance)
        requires
            a.columns_spec() == b.columns_spec(),
        ensures
            a == b,
    {
        assert(a.columns_spec()[0][0] == a.commit_wb && b.columns_spec()[0][0] == b.commit_wb);
        assert(a.columns_spec()[1][0] == a.commit_q && b.columns_spec()[1][0] == b.commit_q);
        assert(a.columns_spec()[2][0] == a.score_pub && b.columns_spec()[2][0] == b.score_pub);
    }
}

impl PublicRecord {
    /// The stored form of an instance. The commitment texts are fixed while
    /// the commitment slots are reserved.
    pub fn for_instance(instance: &PublicInstance) -> (r: PublicRecord)
        ensures
            r.commit_wb@ == "0x00"@,
            r.commit_q@ == "0x00"@,
            r.score_pub@ == hex_text(instance.score_pub.value()),
            column_values(r.instances@) == instance.columns_spec(),
    {
        PublicRecord {
            commit_wb: "0x00".to_owned(),
            commit_q: "0x00".to_owned(),
            score_pub: instance.score_pub.to_hex(),
            instances: instance.columns(),
        }
    }
}

} // verus!
