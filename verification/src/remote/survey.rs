//! Listing the namespaces of one account together with their counts: one
//! request for the namespaces, one for the usage figures and, where those
//! give nothing, one for each namespace. The caller sends each request and
//! reports what came back.

use crate::error::{list_result_view, KvError, KvErrorView};
use crate::json::json_of_text;
use crate::models::kv::{ConnectionView, KVNamespace, NamespaceView, RemoteConnection};
use crate::remote::counts::{
    analytics_request, analytics_result, analytics_url, count_probe_request, count_probe_url,
    counted, needs_probes, probe_result, read_analytics_response, read_probe_response,
    record_probe, with_counts, CountView, NamespaceCount,
};
use crate::remote::request::{
    list_namespaces_request, namespaces_url, HttpMethod, HttpRequest, RequestView,
};
use crate::remote::response::{namespaces_result, read_namespaces_response, HttpResponse};
use crate::views::views;
use vstd::prelude::*;

verus! {

/// What came of a request.
#[derive(Debug, PartialEq, Eq)]
pub enum Answer {
    /// The provider answered.
    Received(HttpResponse),
    /// No answer came; the text says why.
    Missing(String),
}

/// Mathematical model of an [`Answer`].
pub enum AnswerView {
    Received { status: u16, body: Seq<char> },
    Missing(Seq<char>),
}

impl View for Answer {
    type V = AnswerView;

    open spec fn view(&self) -> AnswerView {
        match *self {
            Answer::Received(response) => AnswerView::Received {
                status: response.status,
                body: response.body@,
            },
            Answer::Missing(why) => AnswerView::Missing(why@),
        }
    }
}

/// What is in turn in a survey.
#[derive(Debug)]
enum Stage {
    Listing,
    Counting { namespaces: Vec<KVNamespace> },
    Probing { namespaces: Vec<KVNamespace>, counts: Vec<NamespaceCount>, next: usize },
    Finished { outcome: Result<Vec<KVNamespace>, KvError> },
}

/// What is in turn in a survey.
pub enum SurveyStageView {
    /// The namespaces are to be listed.
    Listing,
    /// The namespaces are listed, and the usage figures are to be asked for.
    Counting { namespaces: Seq<NamespaceView> },
    /// The usage figures gave nothing, and the namespace at `next` is to be
    /// probed for its count.
    Probing { namespaces: Seq<NamespaceView>, counts: Seq<CountView>, next: nat },
    /// Nothing is left to do, and `outcome` is what the survey came to.
    Finished { outcome: Result<Seq<NamespaceView>, KvErrorView> },
}

/// The survey of the namespaces of one account, and how far it has come.
#[derive(Debug)]
pub struct NamespaceSurvey {
    connection: RemoteConnection,
    stage: Stage,
}

/// Mathematical model of a [`NamespaceSurvey`].
pub struct SurveyView {
    pub connection: ConnectionView,
    pub stage: SurveyStageView,
}

/// What a survey asks of its caller.
#[derive(Debug)]
pub enum SurveyStep {
    /// Send the request and hand what came of it to
    /// [`NamespaceSurvey::record`] of the survey that waits for it.
    Send(HttpRequest, NamespaceSurvey),
    /// The survey is over, and this is what it came to.
    Done(Result<Vec<KVNamespace>, KvError>),
}

/// What a survey asks for next.
pub enum SurveyActionView {
    Send(RequestView),
    Finish(Result<Seq<NamespaceView>, KvErrorView>),
}

/// `namespaces` with the count that `counts` hold for each of them.
pub open spec fn counted_all(namespaces: Seq<NamespaceView>, counts: Seq<CountView>) -> Seq<
    NamespaceView,
> {
    Seq::new(namespaces.len(), |i: int| counted(namespaces[i], counts))
}

/// The request of `connection` for `url`.
pub open spec fn get_request(connection: ConnectionView, url: Seq<char>) -> RequestView {
    RequestView {
        method: HttpMethod::Get,
        url,
        bearer_token: connection.api_token,
        json_body: None,
    }
}

impl SurveyView {
    /// The survey of the account of `connection`, with nothing done yet.
    pub open spec fn start(connection: ConnectionView) -> SurveyView {
        SurveyView { connection, stage: SurveyStageView::Listing }
    }

    /// What every survey keeps to: a namespace is there to be probed while
    /// the survey probes.
    pub open spec fn well_formed(self) -> bool {
        match self.stage {
            SurveyStageView::Probing { namespaces, next, .. } => next < namespaces.len(),
            _ => true,
        }
    }

    /// The survey at its end with `outcome`.
    pub open spec fn finish(self, outcome: Result<Seq<NamespaceView>, KvErrorView>) -> SurveyView {
        SurveyView { stage: SurveyStageView::Finished { outcome }, ..self }
    }

    /// What the survey asks for next.
    pub open spec fn action(self) -> SurveyActionView {
        let account = self.connection.account_id;
        match self.stage {
            SurveyStageView::Listing => SurveyActionView::Send(
                get_request(self.connection, namespaces_url(account)),
            ),
            SurveyStageView::Counting { .. } => SurveyActionView::Send(
                get_request(self.connection, analytics_url(account)),
            ),
            SurveyStageView::Probing { namespaces, next, .. } => SurveyActionView::Send(
                get_request(self.connection, count_probe_url(account, namespaces[next as int].id)),
            ),
            SurveyStageView::Finished { outcome } => SurveyActionView::Finish(outcome),
        }
    }

    /// The survey after its request was answered by `answer`. A listing
    /// that fails ends the survey with its failure. Usage figures and probes
    /// may fail without harm: figures that give no count at all are followed
    /// by a probe of each namespace, and a probe that gives nothing leaves
    /// its namespace without a count.
    pub open spec fn step(self, answer: AnswerView) -> SurveyView {
        match self.stage {
            SurveyStageView::Listing => match answer {
                AnswerView::Received { status, body } => match namespaces_result(
                    self.connection.account_id,
                    status,
                    json_of_text(body),
                ) {
                    Ok(namespaces) => SurveyView {
                        stage: SurveyStageView::Counting { namespaces },
                        ..self
                    },
                    Err(e) => self.finish(Err(e)),
                },
                AnswerView::Missing(why) => self.finish(Err(KvErrorView::Transport(why))),
            },
            SurveyStageView::Counting { namespaces } => {
                let counts = match answer {
                    AnswerView::Received { status, body } => analytics_result(
                        status,
                        json_of_text(body),
                    ),
                    AnswerView::Missing(_) => Seq::empty(),
                };
                if counts.len() == 0 && namespaces.len() > 0 {
                    SurveyView {
                        stage: SurveyStageView::Probing { namespaces, counts, next: 0 },
                        ..self
                    }
                } else {
                    self.finish(Ok(counted_all(namespaces, counts)))
                }
            },
            SurveyStageView::Probing { namespaces, counts, next } => {
                let probed = match answer {
                    AnswerView::Received { status, body } => probe_result(
                        status,
                        json_of_text(body),
                    ),
                    AnswerView::Missing(_) => None,
                };
                let noted = match probed {
                    Some(stored_keys) => counts.push(
                        CountView { namespace_id: namespaces[next as int].id, stored_keys },
                    ),
                    None => counts,
                };
                if next + 1 < namespaces.len() {
                    SurveyView {
                        stage: SurveyStageView::Probing {
                            namespaces,
                            counts: noted,
                            next: next + 1,
                        },
                        ..self
                    }
                } else {
                    self.finish(Ok(counted_all(namespaces, noted)))
                }
            },
            SurveyStageView::Finished { .. } => self,
        }
    }

    /// How many requests the survey has before it at most.
    pub open spec fn steps_left(self) -> nat {
        match self.stage {
            SurveyStageView::Listing => 3,
            SurveyStageView::Counting { namespaces } => namespaces.len() + 1,
            SurveyStageView::Probing { namespaces, next, .. } => (namespaces.len() - next) as nat,
            SurveyStageView::Finished { .. } => 0,
        }
    }
}

/// The namespaces that a survey holds once they are listed.
pub open spec fn listed(stage: SurveyStageView) -> Seq<NamespaceView> {
    match stage {
        SurveyStageView::Counting { namespaces } => namespaces,
        SurveyStageView::Probing { namespaces, .. } => namespaces,
        _ => Seq::empty(),
    }
}

/// Every answer keeps a survey well formed and brings it nearer to its end;
/// and once the namespaces are listed, the survey ends well, with every
/// listed namespace and in the order of the listing, whatever becomes of the
/// requests for their counts.
pub proof fn lemma_counts_never_fail(survey: SurveyView, answer: AnswerView)
    requires
        survey.well_formed(),
        survey.stage is Counting || survey.stage is Probing,
    ensures
        survey.step(answer).well_formed(),
        survey.step(answer).steps_left() < survey.steps_left(),
        survey.step(answer).stage is Probing ==> listed(survey.step(answer).stage) == listed(
            survey.stage,
        ),
        survey.step(answer).stage is Finished ==> {
            &&& survey.step(answer).stage->Finished_outcome is Ok
            &&& survey.step(answer).stage->Finished_outcome->Ok_0.len() == listed(
                survey.stage,
            ).len()
        },
        forall|i: int|
            survey.step(answer).stage is Finished && 0 <= i < listed(survey.stage).len() ==> (
            #[trigger] survey.step(answer).stage->Finished_outcome->Ok_0[i]).id == listed(
                survey.stage,
            )[i].id,
{
}

/// `namespaces` with the count that `counts` hold for each of them.
fn count_all(namespaces: Vec<KVNamespace>, counts: &Vec<NamespaceCount>) -> (shown: Vec<
    KVNamespace,
>)
    ensures
        views(shown@) == counted_all(views(namespaces@), views(counts@)),
{
    let shown = with_counts(namespaces, counts);
    assert(views(shown@) =~= counted_all(views(namespaces@), views(counts@)));
    shown
}

impl Stage {
    /// What the stage stands for.
    spec fn view(self) -> SurveyStageView {
        match self {
            Stage::Listing => SurveyStageView::Listing,
            Stage::Counting { namespaces } => SurveyStageView::Counting {
                namespaces: views(namespaces@),
            },
            Stage::Probing { namespaces, counts, next } => SurveyStageView::Probing {
                namespaces: views(namespaces@),
                counts: views(counts@),
                next: next as nat,
            },
            Stage::Finished { outcome } => SurveyStageView::Finished {
                outcome: list_result_view(outcome),
            },
        }
    }
}

impl View for NamespaceSurvey {
    type V = SurveyView;

    closed spec fn view(&self) -> SurveyView {
        SurveyView { connection: self.connection@, stage: self.stage.view() }
    }
}

impl SurveyStep {
    /// What the step asks for.
    pub closed spec fn action(self) -> SurveyActionView {
        match self {
            SurveyStep::Send(request, _) => SurveyActionView::Send(request@),
            SurveyStep::Done(outcome) => SurveyActionView::Finish(list_result_view(outcome)),
        }
    }
}

impl NamespaceSurvey {
    #[verifier::type_invariant]
    spec fn keeps_well_formed(self) -> bool {
        self@.well_formed()
    }

    /// The survey of the account of `connection`.
    pub fn new(connection: RemoteConnection) -> (survey: NamespaceSurvey)
        ensures
            survey@ == SurveyView::start(connection@),
    {
        NamespaceSurvey { connection, stage: Stage::Listing }
    }

    /// What the survey asks for next: a request to send, with the survey
    /// that waits for the answer, or the end of the survey.
    pub fn next(self) -> (step: SurveyStep)
        ensures
            step.action() == self@.action(),
            match step {
                SurveyStep::Send(_, waiting) => waiting@ == self@ && !(self@.stage is Finished),
                SurveyStep::Done(_) => self@.stage is Finished,
            },
    {
        proof {
            use_type_invariant(&self);
        }
        let connection = self.connection;
        match self.stage {
            Stage::Listing => SurveyStep::Send(
                list_namespaces_request(&connection),
                NamespaceSurvey { connection, stage: Stage::Listing },
            ),
            Stage::Counting { namespaces } => SurveyStep::Send(
                analytics_request(&connection),
                NamespaceSurvey { connection, stage: Stage::Counting { namespaces } },
            ),
            Stage::Probing { namespaces, counts, next } => {
                assert(next < views(namespaces@).len() == namespaces.len());
                assert(views(namespaces@)[next as int] == namespaces@[next as int]@);
                SurveyStep::Send(
                    count_probe_request(&connection, namespaces[next].id.as_str()),
                    NamespaceSurvey {
                        connection,
                        stage: Stage::Probing { namespaces, counts, next },
                    },
                )
            },
            Stage::Finished { outcome } => SurveyStep::Done(outcome),
        }
    }

    /// The survey after its request was answered by `answer`.
    pub fn record(self, answer: Answer) -> (survey: NamespaceSurvey)
        ensures
            survey@ == self@.step(answer@),
    {
        proof {
            use_type_invariant(&self);
        }
        let connection = self.connection;
        let stage = match self.stage {
            Stage::Listing => match answer {
                Answer::Received(response) => match read_namespaces_response(
                    connection.account_id.as_str(),
                    &response,
                ) {
                    Ok(namespaces) => Stage::Counting { namespaces },
                    Err(e) => Stage::Finished { outcome: Err(e) },
                },
                Answer::Missing(why) => Stage::Finished { outcome: Err(KvError::Transport(why)) },
            },
            Stage::Counting { namespaces } => {
                let counts = match answer {
                    Answer::Received(response) => read_analytics_response(&response),
                    Answer::Missing(_) => {
                        let none: Vec<NamespaceCount> = Vec::new();
                        assert(views(none@) =~= Seq::<CountView>::empty());
                        none
                    },
                };
                if needs_probes(&counts) && namespaces.len() > 0 {
                    Stage::Probing { namespaces, counts, next: 0 }
                } else {
                    Stage::Finished { outcome: Ok(count_all(namespaces, &counts)) }
                }
            },
            Stage::Probing { namespaces, counts, next } => {
                let probed = match answer {
                    Answer::Received(response) => read_probe_response(&response),
                    Answer::Missing(_) => None,
                };
                let mut counts = counts;
                assert(next < views(namespaces@).len() == namespaces.len());
                assert(views(namespaces@)[next as int] == namespaces@[next as int]@);
                record_probe(&mut counts, namespaces[next].id.as_str(), probed);
                if next + 1 < namespaces.len() {
                    Stage::Probing { namespaces, counts, next: next + 1 }
                } else {
                    Stage::Finished { outcome: Ok(count_all(namespaces, &counts)) }
                }
            },
            Stage::Finished { outcome } => Stage::Finished { outcome },
        };
        NamespaceSurvey { connection, stage }
    }
}

} // verus!
