//! Laws of the code generator that speak of names: generated labels never
//! repeat within a unit, and labels of different functions never meet.
use vstd::prelude::*;
use crate::command::{ArithmeticCommand, CommandV};
use crate::text::{dec, digit_char};
use crate::translator::apply_all;
use crate::writer::{apply, end_label, is_relational, qualified, true_label, GenError, GenState};

verus! {

proof fn lemma_dec_nonempty(n: nat)
    ensures
        dec(n).len() >= 1,
    decreases n,
{
    if n >= 10 {
        lemma_dec_nonempty(n / 10);
    }
}

proof fn lemma_dec_injective(a: nat, b: nat)
    requires
        dec(a) == dec(b),
    ensures
        a == b,
    decreases a,
{
    if a >= 10 && b >= 10 {
        assert(dec(a).drop_last() == dec(a / 10));
        assert(dec(b).drop_last() == dec(b / 10));
        lemma_dec_injective(a / 10, b / 10);
        assert(dec(a).last() == digit_char(a % 10));
        assert(dec(b).last() == digit_char(b % 10));
        assert(a % 10 == b % 10);
        assert(a == (a / 10) * 10 + a % 10);
        assert(b == (b / 10) * 10 + b % 10);
        assert(a == b);
    } else if a < 10 && b < 10 {
        assert(dec(a) == seq![digit_char(a)]);
        assert(dec(b) == seq![digit_char(b)]);
        assert(seq![digit_char(a)][0] == digit_char(a));
        assert(seq![digit_char(b)][0] == digit_char(b));
        assert(dec(a)[0] == dec(b)[0]);
        assert(digit_char(a) == digit_char(b));
        assert(a == b);
    } else if a >= 10 {
        lemma_dec_nonempty(a / 10);
        assert(dec(a).len() == dec(a / 10).len() + 1);
        assert(dec(b).len() == 1);
    } else {
        lemma_dec_nonempty(b / 10);
        assert(dec(b).len() == dec(b / 10).len() + 1);
        assert(dec(a).len() == 1);
    }
}

proof fn lemma_cancel(p: Seq<char>, x: Seq<char>, y: Seq<char>, q: Seq<char>)
    requires
        p + x + q == p + y + q,
    ensures
        x == y,
{
    let l = p + x + q;
    assert(l.len() == p.len() + x.len() + q.len());
    assert((p + y + q).len() == p.len() + y.len() + q.len());
    assert(x.len() == y.len());
    assert(x =~= l.subrange(p.len() as int, (p.len() + x.len()) as int));
    assert(y =~= (p + y + q).subrange(p.len() as int, (p.len() + y.len()) as int));
}

/// The counter only grows, and the unit identifier stays.
pub proof fn law_apply_keeps_count_order(st: GenState, c: CommandV)
    ensures
        apply(st, c) is Ok ==> apply(st, c)->Ok_0.count >= st.count && apply(st, c)->Ok_0.ident
            == st.ident,
{
}

/// Over any run of commands the counter only grows and the unit identifier
/// stays.
pub proof fn law_apply_all_keeps_count_order(st: GenState, cmds: Seq<Option<CommandV>>)
    ensures
        apply_all(st, cmds) is Ok ==> apply_all(st, cmds)->Ok_0.count >= st.count && apply_all(
            st,
            cmds,
        )->Ok_0.ident == st.ident,
    decreases cmds.len(),
{
    if cmds.len() > 0 {
        law_apply_all_keeps_count_order(st, cmds.drop_last());
        if apply_all(st, cmds.drop_last()) is Ok {
            let s = apply_all(st, cmds.drop_last())->Ok_0;
            if let Some(c) = cmds.last() {
                law_apply_keeps_count_order(s, c);
            }
        }
    }
}

/// Two uses of a comparison operator in one unit, with any commands between
/// them, branch to different labels: neither the `TRUE` nor the `END` label of
/// the first is that of the second.
pub proof fn law_comparison_labels_unique(
    st: GenState,
    c: ArithmeticCommand,
    between: Seq<Option<CommandV>>,
)
    requires
        is_relational(c),
        apply(st, CommandV::Arithmetic(c)) is Ok,
        apply_all(apply(st, CommandV::Arithmetic(c))->Ok_0, between) is Ok,
    ensures
        ({
            let later = apply_all(apply(st, CommandV::Arithmetic(c))->Ok_0, between)->Ok_0;
            &&& true_label(c, st.count) != true_label(c, later.count)
            &&& end_label(c, st.count) != end_label(c, later.count)
        }),
{
    let st1 = apply(st, CommandV::Arithmetic(c))->Ok_0;
    law_apply_all_keeps_count_order(st1, between);
    let later = apply_all(st1, between)->Ok_0;
    assert(st1.count == st.count + 1);
    let p = crate::writer::relational_name(c);
    if true_label(c, st.count) == true_label(c, later.count) {
        lemma_cancel(p + "_TRUE_"@, dec(st.count as nat), dec(later.count as nat), Seq::empty());
        lemma_dec_injective(st.count as nat, later.count as nat);
    }
    if end_label(c, st.count) == end_label(c, later.count) {
        lemma_cancel(p + "_END_"@, dec(st.count as nat), dec(later.count as nat), Seq::empty());
        lemma_dec_injective(st.count as nat, later.count as nat);
    }
}

/// A label named `l` inside function `f` and one named `l` inside function `g`
/// are the same label exactly when `f` and `g` are the same function: a
/// `goto l` in one function never reaches the `l` of another.
pub proof fn law_labels_scoped_by_function(
    ident: Seq<char>,
    f_names: Seq<Seq<char>>,
    g_names: Seq<Seq<char>>,
    l: Seq<char>,
)
    requires
        f_names.len() > 0,
        g_names.len() > 0,
    ensures
        qualified(ident, f_names, l) == qualified(ident, g_names, l) <==> f_names.last()
            == g_names.last(),
{
    if qualified(ident, f_names, l) == qualified(ident, g_names, l) {
        assert(qualified(ident, f_names, l) =~= Seq::<char>::empty() + f_names.last() + (seq!['.']
            + l));
        assert(qualified(ident, g_names, l) =~= Seq::<char>::empty() + g_names.last() + (seq!['.']
            + l));
        lemma_cancel(Seq::empty(), f_names.last(), g_names.last(), seq!['.'] + l);
    }
}

} // verus!
