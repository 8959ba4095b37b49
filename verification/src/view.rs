//! The view renderer: the actor that draws the state of the application.
//!
//! It owns a replica of the state. It draws the initial state at once, then
//! waits for each new state and draws it, in the order in which they arrive.
//! What a frame looks like is the view function's business, and putting it
//! on the terminal is the renderer's: the actor only sequences the two.
use crate::channel::Inbox;
use crate::update::{deterministic, faithful_snapshots, state_after, view_follows_update, Round, Update, UpdateError};
use vstd::prelude::*;
use vstd::string::StringExecFns;

verus! {

/// Why the view renderer gave up.
#[derive(Debug)]
pub enum ViewError<E> {
    /// The renderer could not draw a frame; its own error.
    Render(E),
}

impl<E> ViewError<E> {
    /// The failure in words.
    pub open spec fn text(self) -> Seq<char> {
        "Failed to draw to the terminal"@
    }

    /// The failure in words.
    pub fn message(&self) -> (out: String)
        ensures
            out@ == self.text(),
    {
        String::from_str("Failed to draw to the terminal")
    }
}

/// The drawing surface: a renderer, and a ghost log of the frames that it
/// has drawn.
#[verifier::reject_recursive_types(W)]
pub struct Screen<W, D> {
    draw_fn: D,
    drawn: Ghost<Seq<W>>,
}

impl<W, D> Screen<W, D> {
    /// The frames drawn so far, oldest first.
    pub closed spec fn drawn(&self) -> Seq<W> {
        self.drawn@
    }

    /// The renderer that draws the frames.
    pub closed spec fn renderer(&self) -> D {
        self.draw_fn
    }

    /// A surface on which nothing has been drawn yet.
    pub fn new(draw_fn: D) -> (out: Self)
        ensures
            out.drawn() == Seq::<W>::empty(),
            out.renderer() == draw_fn,
    {
        Screen { draw_fn, drawn: Ghost(Seq::empty()) }
    }
}

/// Draws one frame. The frame is logged when the renderer succeeds.
pub fn present<W, E, D: Fn(W) -> Result<(), E>>(screen: &mut Screen<W, D>, frame: W) -> (res:
    Result<(), E>)
    requires
        old(screen).renderer().requires((frame,)),
    ensures
        final(screen).renderer() == old(screen).renderer(),
        old(screen).renderer().ensures((frame,), res),
        res is Ok ==> final(screen).drawn() == old(screen).drawn().push(frame),
        res is Err ==> final(screen).drawn() == old(screen).drawn(),
{
    let res = (screen.draw_fn)(frame);
    if res.is_ok() {
        screen.drawn = Ghost(screen.drawn@.push(frame));
    }
    res
}

/// What a run of the renderer has done, where `states` is the initial state
/// followed by the states it took from its inbox: it drew a frame of each
/// state, in order. A successful run drew them all; a failed one could not
/// draw the last, and so had taken no state after it.
pub open spec fn run_account<M, W, E, VF: Fn(&M) -> W, D: Fn(W) -> Result<(), E>>(
    view_fn: VF,
    draw_fn: D,
    states: Seq<M>,
    frames: Seq<W>,
    res: Result<(), ViewError<E>>,
) -> bool {
    &&& frames.len() <= states.len()
    &&& forall|i: int|
        0 <= i < frames.len() ==> view_fn.ensures((&states[i],), #[trigger] frames[i])
    &&& match res {
        Ok(()) => frames.len() == states.len(),
        Err(ViewError::Render(err)) => {
            &&& frames.len() + 1 == states.len()
            &&& exists|frame: W|
                view_fn.ensures((&states.last(),), frame) && draw_fn.ensures(
                    (frame,),
                    Err::<(), E>(err),
                )
        },
    }
}

/// Runs the view renderer until its inbox closes or a frame cannot be
/// drawn. The first frame, of the initial state, is drawn before anything is
/// taken from the inbox.
pub fn run<M, W, E, VF, D>(model: M, view_fn: VF, screen: &mut Screen<W, D>, rx: &mut Inbox<M>) -> (res:
    Result<(), ViewError<E>>) where VF: Fn(&M) -> W, D: Fn(W) -> Result<(), E>
    requires
        forall|m: M| view_fn.requires((&m,)),
        forall|frame: W| old(screen).renderer().requires((frame,)),
    ensures
        final(screen).renderer() == old(screen).renderer(),
        old(rx).received().is_prefix_of(final(rx).received()),
        old(screen).drawn().is_prefix_of(final(screen).drawn()),
        final(rx).quota() + final(rx).received().len() == old(rx).quota() + old(
            rx,
        ).received().len(),
        run_account(
            view_fn,
            old(screen).renderer(),
            seq![model] + final(rx).received().skip(old(rx).received().len() as int),
            final(screen).drawn().skip(old(screen).drawn().len() as int),
            res,
        ),
{
    let ghost received_base = rx.received();
    let ghost drawn_base = screen.drawn();
    let ghost init = model;
    let ghost mut states = seq![model];
    let ghost mut frames = Seq::<W>::empty();
    let mut model = model;
    let mut outcome: Result<(), ViewError<E>> = Ok(());
    proof {
        assert(rx.received() =~= received_base + states.skip(1));
        assert(screen.drawn() =~= drawn_base + frames);
    }
    loop
        invariant_except_break
            forall|m: M| view_fn.requires((&m,)),
            forall|frame: W| screen.renderer().requires((frame,)),
            outcome is Ok,
            frames.len() + 1 == states.len(),
        invariant
            screen.renderer() == old(screen).renderer(),
            states.len() > 0,
            states[0] == init,
            model == states.last(),
            rx.received() == received_base + states.skip(1),
            screen.drawn() == drawn_base + frames,
            rx.quota() + rx.received().len() == old(rx).quota() + received_base.len(),
            forall|i: int|
                0 <= i < frames.len() ==> i < states.len() && view_fn.ensures(
                    (&states[i],),
                    #[trigger] frames[i],
                ),
        ensures
            run_account(view_fn, screen.renderer(), states, frames, outcome),
        decreases rx.quota(),
    {
        let frame = view_fn(&model);
        match present(screen, frame) {
            Err(err) => {
                outcome = Err(ViewError::Render(err));
                break ;
            },
            Ok(()) => {},
        }
        proof {
            assert(screen.drawn() =~= drawn_base + frames.push(frame));
            frames = frames.push(frame);
        }
        let Some(new_model) = rx.recv() else {
            break ;
        };
        proof {
            assert(rx.received() =~= received_base + states.push(new_model).skip(1));
            states = states.push(new_model);
        }
        model = new_model;
    }
    proof {
        assert(seq![init] + rx.received().skip(received_base.len() as int) =~= states);
        assert(screen.drawn().skip(drawn_base.len() as int) =~= frames);
    }
    outcome
}

/// The first frame comes first. A run has drawn at least as many frames as
/// it has taken states from its inbox, so it drew before it took any; the
/// first frame it drew is a frame of the initial state; and a successful
/// run has drawn the initial state and every state it took.
pub proof fn first_frame_comes_first<M, W, E, VF: Fn(&M) -> W, D: Fn(W) -> Result<(), E>>(
    view_fn: VF,
    draw_fn: D,
    init: M,
    taken: Seq<M>,
    frames: Seq<W>,
    res: Result<(), ViewError<E>>,
)
    requires
        run_account(view_fn, draw_fn, seq![init] + taken, frames, res),
    ensures
        taken.len() <= frames.len(),
        taken.len() > 0 ==> frames.len() > 0,
        frames.len() > 0 ==> view_fn.ensures((&init,), frames[0]),
        forall|i: int|
            0 < i < frames.len() ==> view_fn.ensures((&taken[i - 1],), #[trigger] frames[i]),
        res is Ok ==> frames.len() == taken.len() + 1,
{
    let states = seq![init] + taken;
    assert(states[0] == init);
    assert forall|i: int| 0 < i < frames.len() implies view_fn.ensures(
        (&taken[i - 1],),
        #[trigger] frames[i],
    ) by {
        assert(states[i] == taken[i - 1]);
    }
}

/// `frame` is a frame of the state reached by applying the update function
/// to `msgs`, starting from `init`.
pub open spec fn frame_of_state_after<
    M,
    Msg,
    Eff,
    W,
    F: Fn(M, Msg) -> Update<M, Eff>,
    VF: Fn(&M) -> W,
>(update_fn: F, view_fn: VF, init: M, msgs: Seq<Msg>, frame: W) -> bool {
    match state_after(update_fn, init, msgs) {
        Some(state) => view_fn.ensures((&state,), frame),
        None => false,
    }
}

/// The screen follows the update function. Take a run of the update engine
/// and a run of the view that starts from the same initial state and takes
/// exactly the states that the engine showed, in the order in which it
/// showed them. With a deterministic update function and snapshots that
/// equal their state, the frame at place `i` is then a frame of the state
/// reached by applying the update function to the first `i` messages that
/// the engine received: the first frame shows the initial state, and no
/// state is skipped or drawn out of turn.
pub proof fn screen_follows_update<
    M: Clone,
    Msg,
    Eff,
    W,
    E,
    F: Fn(M, Msg) -> Update<M, Eff>,
    VF: Fn(&M) -> W,
    D: Fn(W) -> Result<(), E>,
>(
    update_fn: F,
    init: M,
    initial_effect: Option<Eff>,
    rounds: Seq<Round<M, Msg, Eff>>,
    received: Seq<Msg>,
    shown: Seq<M>,
    requested: Seq<(M, Eff)>,
    engine_res: Result<(), UpdateError<M, Eff>>,
    view_fn: VF,
    draw_fn: D,
    frames: Seq<W>,
    view_res: Result<(), ViewError<E>>,
)
    requires
        crate::update::run_account(
            update_fn,
            init,
            initial_effect,
            rounds,
            received,
            shown,
            requested,
            engine_res,
        ),
        deterministic(update_fn),
        faithful_snapshots::<M>(),
        run_account(view_fn, draw_fn, seq![init] + shown, frames, view_res),
    ensures
        frames.len() <= received.len() + 1,
        forall|i: int|
            0 <= i < frames.len() ==> frame_of_state_after(
                update_fn,
                view_fn,
                init,
                received.take(i),
                #[trigger] frames[i],
            ),
        view_res is Ok ==> frames.len() == shown.len() + 1,
{
    view_follows_update(
        update_fn,
        init,
        initial_effect,
        rounds,
        received,
        shown,
        requested,
        engine_res,
    );
    first_frame_comes_first(view_fn, draw_fn, init, shown, frames, view_res);
    assert forall|i: int| 0 <= i < frames.len() implies frame_of_state_after(
        update_fn,
        view_fn,
        init,
        received.take(i),
        #[trigger] frames[i],
    ) by {
        if i == 0 {
            assert(received.take(0) =~= Seq::<Msg>::empty());
        } else {
            assert(state_after(update_fn, init, received.take(i - 1 + 1)) == Some(shown[i - 1]));
        }
    }
}

} // verus!
