use rfeign::chain::{ChainPosition, ChainStep};
use rfeign::pipeline::{Pipeline, Stage};

#[test]
fn chain_visits_middlewares_then_transport() {
    let mut pos = ChainPosition::new(2);
    let mut seen = Vec::new();
    loop {
        let (step, next) = pos.step();
        seen.push(step);
        if step == ChainStep::Transport {
            break;
        }
        pos = next;
    }
    assert_eq!(seen, vec![ChainStep::Middleware(0), ChainStep::Middleware(1), ChainStep::Transport]);
}

fn run(p: &Pipeline) -> Vec<Stage> {
    let mut s = p.first();
    let mut out = vec![s];
    while s != Stage::Done {
        s = p.after(s);
        out.push(s);
    }
    out
}

#[test]
fn pipeline_stage_order() {
    let p = Pipeline { has_auth: true, request_interceptors: 2, response_interceptors: 1, multipart: false };
    assert_eq!(
        run(&p),
        vec![
            Stage::Authenticate,
            Stage::RequestInterceptor(0),
            Stage::RequestInterceptor(1),
            Stage::Send,
            Stage::ResponseInterceptor(0),
            Stage::Done
        ]
    );
    let m = Pipeline { has_auth: false, request_interceptors: 1, response_interceptors: 3, multipart: true };
    assert_eq!(run(&m), vec![Stage::RequestInterceptor(0), Stage::Send, Stage::Done]);
    let bare = Pipeline { has_auth: false, request_interceptors: 0, response_interceptors: 0, multipart: false };
    assert_eq!(run(&bare), vec![Stage::Send, Stage::Done]);
}

#[test]
fn a_failing_stage_ends_the_run() {
    let p = Pipeline { has_auth: true, request_interceptors: 2, response_interceptors: 1, multipart: false };
    assert_eq!(p.next(Stage::Authenticate, true), Stage::RequestInterceptor(0));
    assert_eq!(p.next(Stage::RequestInterceptor(0), false), Stage::Failed);
    assert_eq!(p.next(Stage::Failed, true), Stage::Failed);
    assert_eq!(p.after(Stage::Failed), Stage::Failed);
    assert_eq!(p.next(Stage::Send, false), Stage::Failed);
    assert!(!run(&p).contains(&Stage::Failed));
}
