//! What one upload round over the selected folders tells the user: a
//! notice for each folder that failed and a summary with the number of
//! documents uploaded.
use vstd::prelude::*;

verus! {

/// A desktop notification: a title line and a body.
#[derive(Clone, Debug)]
pub struct Notice {
    pub summary: String,
    pub body: String,
}

/// The abstract value of a `Notice`.
pub struct NoticeModel {
    pub summary: Seq<char>,
    pub body: Seq<char>,
}

impl View for Notice {
    type V = NoticeModel;

    open spec fn view(&self) -> NoticeModel {
        NoticeModel { summary: self.summary@, body: self.body@ }
    }
}

/// The decimal digit of value `d`.
pub open spec fn digit(d: nat) -> char {
    seq!['0', '1', '2', '3', '4', '5', '6', '7', '8', '9'][d as int]
}

/// `n` written in decimal, without sign or leading zeros.
pub open spec fn decimal(n: nat) -> Seq<char>
    decreases n,
{
    if n < 10 {
        seq![digit(n)]
    } else {
        decimal(n / 10) + seq![digit(n % 10)]
    }
}

/// The notice for a folder that could not be uploaded.
pub open spec fn failure_notice_of(folder: Seq<char>) -> NoticeModel {
    NoticeModel { summary: "Upload failed"@, body: "Failed to upload document "@ + folder }
}

/// The notice that closes a round in which `uploaded` documents were uploaded.
pub open spec fn summary_notice_of(uploaded: nat) -> NoticeModel {
    NoticeModel { summary: "Upload summary"@, body: decimal(uploaded) + " document uploaded"@ }
}

/// Relies on `ToString` for `usize`, through `Display`: the number in decimal.
#[verifier::external_body]
fn decimal_string(n: usize) -> (r: String)
    ensures
        r@ == decimal(n as nat),
{
    n.to_string()
}

/// The notice for a folder that could not be uploaded.
pub fn failure_notice(folder: &str) -> (r: Notice)
    ensures
        r@ == failure_notice_of(folder@),
{
    let summary = String::from_str("Upload failed");
    let mut body = String::from_str("Failed to upload document ");
    body.append(folder);
    Notice { summary, body }
}

/// The count of a round so far: the documents uploaded and, in order, the
/// folders that failed.
pub struct TallyModel {
    pub uploaded: nat,
    pub failed: Seq<Seq<char>>,
}

/// `t` after the outcome of one more folder.
pub open spec fn record_outcome(t: TallyModel, folder: Seq<char>, succeeded: bool) -> TallyModel {
    if succeeded {
        TallyModel { uploaded: t.uploaded + 1, ..t }
    } else {
        TallyModel { failed: t.failed.push(folder), ..t }
    }
}

/// The count of a round whose folders had the outcomes `outcomes`, in order.
pub open spec fn tally_of(outcomes: Seq<(Seq<char>, bool)>) -> TallyModel
    decreases outcomes.len(),
{
    if outcomes.len() == 0 {
        TallyModel { uploaded: 0, failed: Seq::empty() }
    } else {
        let (folder, succeeded) = outcomes.last();
        record_outcome(tally_of(outcomes.drop_last()), folder, succeeded)
    }
}

/// The notices of a round with count `t`: one per failed folder, then the summary.
pub open spec fn notices_of(t: TallyModel) -> Seq<NoticeModel> {
    t.failed.map_values(|f: Seq<char>| failure_notice_of(f)) + seq![summary_notice_of(t.uploaded)]
}

/// The count of one upload round.
pub struct UploadTally {
    uploaded: usize,
    failed: Vec<String>,
}

impl View for UploadTally {
    type V = TallyModel;

    closed spec fn view(&self) -> TallyModel {
        TallyModel { uploaded: self.uploaded as nat, failed: self.failed.deep_view() }
    }
}

impl UploadTally {
    /// The count of a round before any folder.
    pub fn new() -> (r: UploadTally)
        ensures
            r@ == tally_of(Seq::empty()),
    {
        let r = UploadTally { uploaded: 0, failed: Vec::new() };
        proof {
            assert(r@.failed =~= Seq::<Seq<char>>::empty());
        }
        r
    }

    /// Counts the outcome of one more folder.
    pub fn record(&mut self, folder: String, succeeded: bool)
        requires
            old(self)@.uploaded < usize::MAX,
        ensures
            final(self)@ == record_outcome(old(self)@, folder@, succeeded),
    {
        if succeeded {
            self.uploaded = self.uploaded + 1;
        } else {
            let ghost before = self.failed.deep_view();
            self.failed.push(folder);
            proof {
                assert(self.failed.deep_view() =~= before.push(folder@));
            }
        }
    }

    /// How many documents were uploaded.
    pub fn uploaded(&self) -> (r: usize)
        ensures
            r as nat == self@.uploaded,
    {
        self.uploaded
    }

    /// The folders that failed, in order.
    pub fn failed(&self) -> (r: &Vec<String>)
        ensures
            r.deep_view() == self@.failed,
    {
        &self.failed
    }

    /// The notice that closes the round.
    pub fn summary_notice(&self) -> (r: Notice)
        ensures
            r@ == summary_notice_of(self@.uploaded),
    {
        let summary = String::from_str("Upload summary");
        let mut body = decimal_string(self.uploaded);
        body.append(" document uploaded");
        Notice { summary, body }
    }

    /// The notices of the round: one per failed folder, in order, then the summary.
    pub fn notices(&self) -> (r: Vec<Notice>)
        ensures
            r@.map_values(|n: Notice| n@) == notices_of(self@),
    {
        let mut r: Vec<Notice> = Vec::new();
        let mut i: usize = 0;
        while i < self.failed.len()
            invariant
                i <= self.failed.len(),
                r@.map_values(|n: Notice| n@) == self.failed.deep_view().take(i as int).map_values(
                    |f: Seq<char>| failure_notice_of(f),
                ),
            decreases self.failed.len() - i,
        {
            let notice = failure_notice(self.failed[i].as_str());
            let ghost before = r@;
            r.push(notice);
            proof {
                assert(self.failed.deep_view()[i as int] == self.failed@[i as int]@);
                assert(r@.map_values(|n: Notice| n@) =~= before.map_values(|n: Notice| n@).push(
                    failure_notice_of(self.failed@[i as int]@),
                ));
                assert(self.failed.deep_view().take(i + 1) =~= self.failed.deep_view().take(
                    i as int,
                ).push(self.failed[i as int]@));
                assert(r@.map_values(|n: Notice| n@) =~= self.failed.deep_view().take(
                    i + 1,
                ).map_values(|f: Seq<char>| failure_notice_of(f)));
            }
            i = i + 1;
        }
        r.push(self.summary_notice());
        proof {
            assert(self.failed.deep_view().take(i as int) =~= self.failed.deep_view());
            assert(r@.map_values(|n: Notice| n@) =~= notices_of(self@));
        }
        r
    }
}

/// An upload round over no folder tells only that no document was uploaded.
pub proof fn lemma_empty_round()
    ensures
        tally_of(Seq::empty()) == (TallyModel { uploaded: 0, failed: Seq::empty() }),
        summary_notice_of(0) == (NoticeModel {
            summary: "Upload summary"@,
            body: "0 document uploaded"@,
        }),
        notices_of(tally_of(Seq::empty())) == seq![
            NoticeModel { summary: "Upload summary"@, body: "0 document uploaded"@ },
        ],
{
    reveal_strlit("0 document uploaded");
    reveal_strlit(" document uploaded");
    assert(decimal(0) == seq!['0']);
    assert(decimal(0) + " document uploaded"@ =~= "0 document uploaded"@);
    assert(notices_of(tally_of(Seq::empty())) =~= seq![summary_notice_of(0)]);
}

} // verus!
