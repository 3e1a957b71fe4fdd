//! The unit renderer: pure, deterministic text generation for the service
//! unit, the timer unit and the optional wrapper script. No validation is
//! done on the caller's directives: they are emitted verbatim.
use vstd::prelude::*;
use vstd::string::*;

use crate::text::char_seqs;
use crate::text::push_char;
use crate::text::split_on;
use crate::text::split_str;

verus! {

/// One output line per part: the fixed prefix, the part, a newline.
pub open spec fn prefixed_lines(prefix: Seq<char>, parts: Seq<Seq<char>>) -> Seq<char>
    decreases parts.len(),
{
    if parts.len() == 0 {
        Seq::empty()
    } else {
        prefix + parts[0] + seq!['\n'] + prefixed_lines(prefix, parts.drop_first())
    }
}

/// Emitting one more part appends one more line.
proof fn lemma_prefixed_lines_push(prefix: Seq<char>, parts: Seq<Seq<char>>, x: Seq<char>)
    ensures
        prefixed_lines(prefix, parts.push(x)) == prefixed_lines(prefix, parts) + prefix + x
            + seq!['\n'],
    decreases parts.len(),
{
    if parts.len() == 0 {
        assert(parts.push(x).drop_first() =~~= Seq::<Seq<char>>::empty());
        assert(parts.push(x)[0] == x);
        assert(prefixed_lines(prefix, Seq::<Seq<char>>::empty()) =~= Seq::<char>::empty());
        assert(prefixed_lines(prefix, parts.push(x)) =~= prefix + x + seq!['\n']);
        assert(prefixed_lines(prefix, parts) + prefix + x + seq!['\n'] =~= prefix + x
            + seq!['\n']);
    } else {
        assert(parts.push(x)[0] == parts[0]);
        assert(parts.push(x).drop_first() =~~= parts.drop_first().push(x));
        lemma_prefixed_lines_push(prefix, parts.drop_first(), x);
        assert(prefixed_lines(prefix, parts.push(x)) =~= prefixed_lines(prefix, parts) + prefix + x
            + seq!['\n']);
    }
}

/// The full text of the service unit: a description header, a one-shot
/// service section, and one `ExecStart=` line per entry.
pub open spec fn spec_render_service(name: Seq<char>, exec_starts: Seq<Seq<char>>) -> Seq<char> {
    "[Unit]\nDescription=Service for "@ + name + "\n\n[Service]\nType=oneshot\n"@ + prefixed_lines(
        "ExecStart="@,
        exec_starts,
    )
}

/// The full text of the timer unit: a description header, a timer section
/// with `OnCalendar=` only when a frequency is given and one line per
/// comma-separated extra directive (emitted verbatim), then the fixed
/// `Persistent=true` footer and install section.
pub open spec fn spec_render_timer(
    name: Seq<char>,
    frequency: Seq<char>,
    timer_options: Seq<char>,
) -> Seq<char> {
    "[Unit]\nDescription=Timer for "@ + name + "\n\n[Timer]\n"@ + (if frequency.len() > 0 {
        "OnCalendar="@ + frequency + seq!['\n']
    } else {
        Seq::<char>::empty()
    }) + (if timer_options.len() > 0 {
        prefixed_lines(Seq::<char>::empty(), split_on(timer_options, ','))
    } else {
        Seq::<char>::empty()
    }) + "Persistent=true\n\n[Install]\nWantedBy=timers.target\n"@
}

/// The full text of the wrapper script: a shell header and one line per
/// command.
pub open spec fn spec_render_script(commands: Seq<Seq<char>>) -> Seq<char> {
    "#!/bin/sh\n"@ + prefixed_lines(Seq::<char>::empty(), commands)
}

/// Renders the service unit for `name` with one `ExecStart=` line per entry.
pub fn render_service(name: &str, exec_starts: &Vec<String>) -> (r: String)
    ensures
        r@ == spec_render_service(name@, char_seqs(exec_starts@)),
{
    let mut out = String::from_str("[Unit]\nDescription=Service for ");
    out.append(name);
    out.append("\n\n[Service]\nType=oneshot\n");
    let ghost head = out@;
    let mut i: usize = 0;
    proof {
        assert(char_seqs(exec_starts@).take(0) =~~= Seq::<Seq<char>>::empty());
        assert(out@ =~= head + prefixed_lines("ExecStart="@, char_seqs(exec_starts@).take(0)));
    }
    while i < exec_starts.len()
        invariant
            i <= exec_starts@.len(),
            out@ == head + prefixed_lines("ExecStart="@, char_seqs(exec_starts@).take(i as int)),
        decreases exec_starts@.len() - i,
    {
        out.append("ExecStart=");
        out.append(exec_starts[i].as_str());
        push_char(&mut out, '\n');
        proof {
            let parts = char_seqs(exec_starts@);
            lemma_prefixed_lines_push("ExecStart="@, parts.take(i as int), parts[i as int]);
            assert(parts.take(i as int + 1) =~~= parts.take(i as int).push(parts[i as int]));
            assert(out@ =~= head + prefixed_lines("ExecStart="@, parts.take(i as int + 1)));
        }
        i = i + 1;
    }
    proof {
        assert(char_seqs(exec_starts@).take(exec_starts@.len() as int) =~~= char_seqs(
            exec_starts@,
        ));
    }
    out
}

/// Renders the timer unit for `name`. With an empty frequency and no extra
/// directives the timer section holds only the boilerplate footer.
pub fn render_timer(name: &str, frequency: &str, timer_options: &str) -> (r: String)
    ensures
        r@ == spec_render_timer(name@, frequency@, timer_options@),
{
    let mut out = String::from_str("[Unit]\nDescription=Timer for ");
    out.append(name);
    out.append("\n\n[Timer]\n");
    if !frequency.is_empty() {
        out.append("OnCalendar=");
        out.append(frequency);
        push_char(&mut out, '\n');
    }
    if !timer_options.is_empty() {
        let parts = split_str(timer_options, ',');
        let ghost head = out@;
        let mut i: usize = 0;
        proof {
            assert(char_seqs(parts@).take(0) =~~= Seq::<Seq<char>>::empty());
            assert(out@ =~= head + prefixed_lines(
                Seq::<char>::empty(),
                char_seqs(parts@).take(0),
            ));
        }
        while i < parts.len()
            invariant
                i <= parts@.len(),
                out@ == head + prefixed_lines(
                    Seq::<char>::empty(),
                    char_seqs(parts@).take(i as int),
                ),
            decreases parts@.len() - i,
        {
            out.append(parts[i].as_str());
            push_char(&mut out, '\n');
            proof {
                let ps = char_seqs(parts@);
                lemma_prefixed_lines_push(Seq::<char>::empty(), ps.take(i as int), ps[i as int]);
                assert(ps.take(i as int + 1) =~~= ps.take(i as int).push(ps[i as int]));
                assert(out@ =~= head + prefixed_lines(Seq::<char>::empty(), ps.take(i as int + 1)));
            }
            i = i + 1;
        }
        proof {
            assert(char_seqs(parts@).take(parts@.len() as int) =~~= char_seqs(parts@));
        }
    }
    out.append("Persistent=true\n\n[Install]\nWantedBy=timers.target\n");
    proof {
        assert(out@ =~= spec_render_timer(name@, frequency@, timer_options@));
    }
    out
}

/// Renders the wrapper script holding all commands, one per line.
pub fn render_script(commands: &Vec<String>) -> (r: String)
    ensures
        r@ == spec_render_script(char_seqs(commands@)),
{
    let mut out = String::from_str("#!/bin/sh\n");
    let ghost head = out@;
    let mut i: usize = 0;
    proof {
        assert(char_seqs(commands@).take(0) =~~= Seq::<Seq<char>>::empty());
        assert(out@ =~= head + prefixed_lines(Seq::<char>::empty(), char_seqs(commands@).take(0)));
    }
    while i < commands.len()
        invariant
            i <= commands@.len(),
            out@ == head + prefixed_lines(Seq::<char>::empty(), char_seqs(commands@).take(i as int)),
        decreases commands@.len() - i,
    {
        out.append(commands[i].as_str());
        push_char(&mut out, '\n');
        proof {
            let ps = char_seqs(commands@);
            lemma_prefixed_lines_push(Seq::<char>::empty(), ps.take(i as int), ps[i as int]);
            assert(ps.take(i as int + 1) =~~= ps.take(i as int).push(ps[i as int]));
            assert(out@ =~= head + prefixed_lines(Seq::<char>::empty(), ps.take(i as int + 1)));
        }
        i = i + 1;
    }
    proof {
        assert(char_seqs(commands@).take(commands@.len() as int) =~~= char_seqs(commands@));
    }
    out
}

/// Rendering is deterministic: each output is a function of the inputs
/// alone, so equal inputs always produce byte-identical text.
pub proof fn lemma_renderer_deterministic(
    n1: Seq<char>,
    f1: Seq<char>,
    t1: Seq<char>,
    c1: Seq<Seq<char>>,
    n2: Seq<char>,
    f2: Seq<char>,
    t2: Seq<char>,
    c2: Seq<Seq<char>>,
)
    requires
        n1 == n2,
        f1 == f2,
        t1 == t2,
        c1 == c2,
    ensures
        spec_render_timer(n1, f1, t1) == spec_render_timer(n2, f2, t2),
        spec_render_service(n1, c1) == spec_render_service(n2, c2),
        spec_render_script(c1) == spec_render_script(c2),
{
}

} // verus!
