//! The declaration translator: walks the declarations of a header and
//! appends the host declarations to a code emitter.

use crate::ast::{text_of, Aliased, Argument, Entity, EntityKind, EnumConstant, Field, Shape, Type};
use crate::coder::{unroll, Coder, Node};
use crate::names::{regex_is_match, rewritten};
use crate::options::Options;
use crate::resolver::{
    annotation, entity_signature, field_type, name_table, native_type, type_annotation,
    type_signature, FuncDef, Signature,
};
use crate::text::{
    append_chars, append_decimal, append_numeral, decimal, numeral, slice_chars, to_chars,
};
use vstd::hash_map::StringHashMap;
use vstd::hash_set::StringHashSet;
use vstd::prelude::*;
use vstd::string::StringExecFns;

verus! {

/// Number of underscores at the front of `s`.
pub open spec fn leading_underscores(s: Seq<char>) -> nat
    decreases s.len(),
{
    if s.len() > 0 && s[0] == '_' {
        1 + leading_underscores(s.skip(1))
    } else {
        0
    }
}

/// The code of `c` without regard to letter case: an upper-case ASCII letter
/// has the code of its lower-case letter, any other character its own.
pub open spec fn fold_case(c: char) -> u32 {
    let n = c as u32;
    if 0x41 <= n <= 0x5a {
        (n + 0x20) as u32
    } else {
        n
    }
}

/// Whether `a` and `b` are the same text without regard to letter case.
pub open spec fn same_letters(a: Seq<char>, b: Seq<char>) -> bool {
    a.len() == b.len() && forall|i: int|
        0 <= i < a.len() ==> fold_case(#[trigger] a[i]) == fold_case(b[i])
}

/// Whether `src` begins with `pfx`, without regard to letter case.
pub open spec fn begins_with(src: Seq<char>, pfx: Seq<char>) -> bool {
    pfx.len() <= src.len() && same_letters(src.take(pfx.len() as int), pfx)
}

/// `src` without the prefix `pfx`, in whatever letter case it is written,
/// and the underscores that follow it; `src` itself where it does not begin
/// with `pfx`.
pub open spec fn short_name(src: Seq<char>, pfx: Seq<char>) -> Seq<char> {
    if begins_with(src, pfx) {
        let rest = src.skip(pfx.len() as int);
        rest.skip(leading_underscores(rest) as int)
    } else {
        src
    }
}

proof fn lemma_leading_underscores(s: Seq<char>, n: int)
    requires
        0 <= n <= s.len(),
        forall|i: int| 0 <= i < n ==> #[trigger] s[i] == '_',
        n == s.len() || s[n] != '_',
    ensures
        leading_underscores(s) == n,
    decreases n,
{
    if n > 0 {
        let t = s.skip(1);
        assert forall|i: int| 0 <= i < n - 1 implies #[trigger] t[i] == '_' by {
            assert(t[i] == s[i + 1]);
        }
        lemma_leading_underscores(t, n - 1);
    }
}

/// A member of an enum loses the enum's name in front of its own: for every
/// enum name, however its letters are cased in front of the member, any
/// number of underscores behind it and any rest that does not begin with an
/// underscore, the short name is that rest.
pub proof fn lemma_short_name_strips_prefix(
    pfx: Seq<char>,
    written: Seq<char>,
    underscores: nat,
    rest: Seq<char>,
)
    requires
        same_letters(written, pfx),
        rest.len() == 0 || rest[0] != '_',
    ensures
        short_name(written + Seq::new(underscores, |i: int| '_') + rest, pfx) == rest,
{
    let bars = Seq::new(underscores, |i: int| '_');
    let src = written + bars + rest;
    assert(src.take(pfx.len() as int) == written);
    let tail = src.skip(pfx.len() as int);
    assert(tail == bars + rest);
    lemma_leading_underscores(tail, underscores as int);
    assert(tail.skip(underscores as int) == rest);
}

/// The code of `c` without regard to letter case.
fn fold(c: char) -> (code: u32)
    ensures
        code == fold_case(c),
{
    let n: u32 = c as u32;
    if 0x41 <= n && n <= 0x5a {
        n + 0x20
    } else {
        n
    }
}

/// Whether `chars` begins with `prefix`, without regard to letter case.
fn has_prefix(chars: &Vec<char>, prefix: &Vec<char>) -> (found: bool)
    ensures
        found == begins_with(chars@, prefix@),
{
    if prefix.len() > chars.len() {
        return false;
    }
    let ghost front = chars@.take(prefix@.len() as int);
    let mut i: usize = 0;
    while i < prefix.len()
        invariant
            i <= prefix.len() <= chars.len(),
            front == chars@.take(prefix@.len() as int),
            forall|k: int| 0 <= k < i ==> fold_case(#[trigger] front[k]) == fold_case(prefix@[k]),
        decreases prefix.len() - i,
    {
        if fold(chars[i]) != fold(prefix[i]) {
            assert(front[i as int] == chars@[i as int]);
            return false;
        }
        assert(front[i as int] == chars@[i as int]);
        i += 1;
    }
    true
}

/// `src` without the prefix `pfx`, in whatever letter case it is written,
/// and the underscores that follow it.
pub fn without_prefix(src: &str, pfx: &str) -> (short: String)
    ensures
        short@ == short_name(src@, pfx@),
{
    let chars = to_chars(src);
    let prefix = to_chars(pfx);
    if has_prefix(&chars, &prefix) {
        let mut i: usize = prefix.len();
        let ghost rest = src@.skip(pfx@.len() as int);
        while i < chars.len() && chars[i] == '_'
            invariant
                prefix.len() <= i <= chars.len(),
                chars@ == src@,
                prefix@ == pfx@,
                rest == src@.skip(pfx@.len() as int),
                forall|k: int| 0 <= k < i - prefix.len() ==> #[trigger] rest[k] == '_',
            decreases chars.len() - i,
        {
            i += 1;
        }
        proof {
            lemma_leading_underscores(rest, i - prefix.len());
        }
        let kept = slice_chars(&chars, i, chars.len());
        assert(kept@ == rest.skip(i - prefix.len()));
        let mut short = String::new();
        append_chars(&mut short, &kept);
        short
    } else {
        String::from_str(src)
    }
}

/// The state of a translation run, as a mathematical value.
#[verifier::ext_equal]
pub struct State {
    /// The pattern that a name has to match to be in scope.
    pub pattern: Seq<char>,
    /// The template that a name is rewritten by.
    pub template: Seq<char>,
    /// The name of the library wrapper class.
    pub class_name: Seq<char>,
    /// The source names that were registered.
    pub exported: Set<Seq<char>>,
    /// The host name of each translated type, by its source name.
    pub typenames: Map<Seq<char>, Seq<char>>,
    /// The functions to bind by symbol lookup, each under its host name.
    pub calls: Seq<(Seq<char>, Signature)>,
    /// The callbacks to expose as function pointers, each under its name.
    pub callbacks: Seq<(Seq<char>, Signature)>,
    /// The nodes emitted so far.
    pub units: Seq<Node>,
}

/// The state in which a run under `options` starts.
pub open spec fn initial(options: Options) -> State {
    State {
        pattern: options.names_match@,
        template: options.names_replace@,
        class_name: options.class_name@,
        exported: Set::empty(),
        typenames: Map::empty(),
        calls: Seq::empty(),
        callbacks: Seq::empty(),
        units: Seq::empty(),
    }
}

/// The host name of the source name `name`.
pub open spec fn host_name(st: State, name: Seq<char>) -> Seq<char> {
    rewritten(st.pattern, st.template, name)
}

/// `units` and, where there is one, the comment behind them.
pub open spec fn with_comment(units: Seq<Node>, comment: Option<Seq<char>>) -> Seq<Node> {
    match comment {
        Some(comment) => units.push(Node::Comment(unroll(comment))),
        None => units,
    }
}

/// The line that defines one member of an enum: its short name and its
/// value.
pub open spec fn member_line(enum_name: Seq<char>, constant: EnumConstant) -> Seq<char> {
    "static const "@ + short_name(constant.name@, enum_name) + " = "@ + decimal(
        constant.value as int,
    ) + ";"@
}

/// The constants of an enum, and none for any other declaration.
pub open spec fn constants_of(entity: Entity) -> Seq<EnumConstant> {
    match entity.kind {
        EntityKind::Enum(constants) => constants@,
        _ => Seq::empty(),
    }
}

/// The fields of a struct, and none for any other declaration.
pub open spec fn fields_of(entity: Entity) -> Seq<Field> {
    match entity.kind {
        EntityKind::Struct(fields) => fields@,
        _ => Seq::empty(),
    }
}

/// The members of an enum, one line each.
pub open spec fn enum_body(enum_name: Seq<char>, constants: Seq<EnumConstant>) -> Seq<Node> {
    Seq::new(constants.len(), |i: int| Node::Line(member_line(enum_name, constants[i])))
}

/// `units` and behind them an enum: its comment and a block of its members.
pub open spec fn with_enum(
    units: Seq<Node>,
    name: Seq<char>,
    xname: Seq<char>,
    entity: Entity,
) -> Seq<Node> {
    with_comment(units, text_of(entity.comment)).push(
        Node::Block("class "@ + xname, enum_body(name, constants_of(entity))),
    )
}

/// The line that declares one field of a struct: its native-type
/// annotation, its logical type and its name.
pub open spec fn field_line(field: Field) -> Seq<char> {
    annotation(field.scalar) + " "@ + field_type(field.scalar) + " "@ + field.name@ + ";"@
}

/// `units` and behind them one field: its comment and its line.
pub open spec fn with_field(units: Seq<Node>, field: Field) -> Seq<Node> {
    with_comment(units, text_of(field.comment)).push(Node::Line(field_line(field)))
}

/// `units` and behind them the fields `fields`, in order.
pub open spec fn with_fields(units: Seq<Node>, fields: Seq<Field>) -> Seq<Node>
    decreases fields.len(),
{
    if fields.len() == 0 {
        units
    } else {
        with_field(with_fields(units, fields.drop_last()), fields.last())
    }
}

/// `units` and behind them a struct: its comment and a block of its fields.
pub open spec fn with_struct(
    units: Seq<Node>,
    xname: Seq<char>,
    comment: Option<Seq<char>>,
    fields: Seq<Field>,
) -> Seq<Node> {
    with_comment(units, comment).push(
        Node::Block("class "@ + xname + " extends Struct"@, with_fields(Seq::empty(), fields)),
    )
}

/// The state after the typedef `entity` is translated under the host name
/// `xname`: a typedef of a struct is emitted as that struct, a typedef of a
/// function pointer becomes a callback, and any other changes nothing.
pub open spec fn with_typedef(st: State, xname: Seq<char>, entity: Entity) -> State {
    match entity.kind {
        EntityKind::Typedef(Aliased::Record(fields)) => State {
            units: with_struct(st.units, xname, text_of(entity.comment), fields@),
            ..st
        },
        EntityKind::Typedef(Aliased::FunctionPointer(ty)) => State {
            callbacks: st.callbacks.push((xname, type_signature(st.typenames, ty))),
            ..st
        },
        _ => st,
    }
}

/// Whether `entity` is of a kind that is translated.
pub open spec fn translates(entity: Entity) -> bool {
    match entity.kind {
        EntityKind::Enum(_) => true,
        EntityKind::Struct(_) => true,
        EntityKind::Typedef(aliased) => !(aliased is Other),
        _ => false,
    }
}

/// The state after `entity` is translated, by its kind, under the source
/// name `name` and the host name `xname`.
pub open spec fn with_entity(st: State, name: Seq<char>, xname: Seq<char>, entity: Entity) -> State {
    match entity.kind {
        EntityKind::Enum(_) => State { units: with_enum(st.units, name, xname, entity), ..st },
        EntityKind::Struct(_) => State {
            units: with_struct(st.units, xname, text_of(entity.comment), fields_of(entity)),
            ..st
        },
        EntityKind::Typedef(_) => with_typedef(st, xname, entity),
        _ => st,
    }
}

/// The state after a type has referred to the declaration `entity`. A
/// declaration with a name that is not registered yet is translated and
/// registered, if its kind is translated at all; any other changes nothing.
pub open spec fn visit_entity(st: State, entity: Entity) -> State {
    match entity.name {
        Some(name) => if st.exported.contains(name@) || !translates(entity) {
            st
        } else {
            let xname = host_name(st, name@);
            let done = with_entity(st, name@, xname, entity);
            State {
                exported: done.exported.insert(name@),
                typenames: done.typenames.insert(name@, xname),
                ..done
            }
        },
        None => st,
    }
}

/// The state after the type `ty` was referred to: the declaration that it
/// names is visited, and through a pointer the type that it points to.
pub open spec fn visit_type(st: State, ty: Type) -> State
    decreases ty,
{
    match ty.declaration {
        Some(entity) => visit_entity(st, *entity),
        None => match ty.shape {
            Shape::Pointer(pointee) => visit_type(st, *pointee),
            _ => st,
        },
    }
}

/// The function type that `ty` points to, where `ty` is a pointer to a
/// function.
pub open spec fn callback_type(ty: Type) -> Option<Type> {
    match ty.shape {
        Shape::Pointer(pointee) => match pointee.shape {
            Shape::Function(_, _) => Some(*pointee),
            _ => None,
        },
        _ => None,
    }
}

/// The state, and the number of unnamed callbacks so far, after one argument
/// of the function with the host name `xname`. A pointer to a function
/// becomes a callback under the function's name and its own, or `cb` and
/// the next number where it has none; any other type is visited.
pub open spec fn visit_arg(st: State, unnamed: nat, xname: Seq<char>, arg: Argument) -> (
    State,
    nat,
) {
    match callback_type(arg.ty) {
        Some(function) => {
            let arg_name = match arg.name {
                Some(name) => name@,
                None => "cb"@ + numeral(unnamed),
            };
            let next = if arg.name is None {
                unnamed + 1
            } else {
                unnamed
            };
            (
                State {
                    callbacks: st.callbacks.push(
                        (xname + "_"@ + arg_name, type_signature(st.typenames, function)),
                    ),
                    ..st
                },
                next as nat,
            )
        },
        None => (visit_type(st, arg.ty), unnamed),
    }
}

/// The state, and the number of unnamed callbacks, after the arguments
/// `args` of the function with the host name `xname`, in order.
pub open spec fn visit_args(st: State, xname: Seq<char>, args: Seq<Argument>) -> (State, nat)
    decreases args.len(),
{
    if args.len() == 0 {
        (st, 0)
    } else {
        let before = visit_args(st, xname, args.drop_last());
        visit_arg(before.0, before.1, xname, args.last())
    }
}

/// The state after the function `entity` with the source name `name`: its
/// result type and its arguments are visited, then it joins the calls.
pub open spec fn visit_function(st: State, name: Seq<char>, entity: Entity) -> State {
    let xname = host_name(st, name);
    let seen = match entity.kind {
        EntityKind::Function(res, args) => visit_args(visit_type(st, res), xname, args@).0,
        _ => st,
    };
    State { calls: seen.calls.push((xname, entity_signature(seen.typenames, entity))), ..seen }
}

/// The state after the first pass has met `entity`: a function whose name
/// is in scope is visited.
pub open spec fn first_step(st: State, entity: Entity) -> State {
    match entity.name {
        Some(name) => if regex_is_match(st.pattern, name@) && entity.kind is Function {
            visit_function(st, name@, entity)
        } else {
            st
        },
        None => st,
    }
}

/// The state after the first pass over `entities`.
pub open spec fn first_pass(st: State, entities: Seq<Entity>) -> State
    decreases entities.len(),
{
    if entities.len() == 0 {
        st
    } else {
        first_step(first_pass(st, entities.drop_last()), entities.last())
    }
}

/// The state after the second pass has met `entity`: a name in scope that
/// is not registered yet is registered, and its declaration is translated.
pub open spec fn second_step(st: State, entity: Entity) -> State {
    match entity.name {
        Some(name) => if regex_is_match(st.pattern, name@) && !st.exported.contains(name@) {
            with_entity(
                State { exported: st.exported.insert(name@), ..st },
                name@,
                host_name(st, name@),
                entity,
            )
        } else {
            st
        },
        None => st,
    }
}

/// The state after the second pass over `entities`.
pub open spec fn second_pass(st: State, entities: Seq<Entity>) -> State
    decreases entities.len(),
{
    if entities.len() == 0 {
        st
    } else {
        second_step(second_pass(st, entities.drop_last()), entities.last())
    }
}

/// The C symbol of a function, and the empty text for a descriptor that has
/// none.
pub open spec fn symbol(signature: Signature) -> Seq<char> {
    match signature.name {
        Some(name) => name,
        None => Seq::empty(),
    }
}

/// The field of the wrapper class that holds one callback.
pub open spec fn callback_field(entry: (Seq<char>, Signature)) -> Seq<char> {
    "final Pointer<NativeFunction<"@ + entry.1.cffi + ">> _"@ + entry.0 + ";"@
}

/// The field of the wrapper class that holds one function.
pub open spec fn call_field(entry: (Seq<char>, Signature)) -> Seq<char> {
    "final "@ + entry.1.dart + " _"@ + entry.0 + ";"@
}

/// The constructor parameter of one callback.
pub open spec fn parameter(entry: (Seq<char>, Signature)) -> Seq<char> {
    "  , this._"@ + entry.0
}

/// The initializer that binds one function to its symbol. The first of the
/// list follows a colon, every other a comma.
pub open spec fn initializer(entry: (Seq<char>, Signature), first: bool) -> Seq<char> {
    (if first {
        ":"@
    } else {
        ","@
    }) + " _"@ + entry.0 + " = dylib.lookup<NativeFunction<"@ + entry.1.cffi + ">>('"@ + symbol(
        entry.1,
    ) + "').asFunction()"@
}

/// `units` and behind them the fields of the callbacks, each behind its
/// comment.
pub open spec fn with_callback_fields(
    units: Seq<Node>,
    entries: Seq<(Seq<char>, Signature)>,
) -> Seq<Node>
    decreases entries.len(),
{
    if entries.len() == 0 {
        units
    } else {
        with_comment(
            with_callback_fields(units, entries.drop_last()),
            entries.last().1.cmt,
        ).push(Node::Line(callback_field(entries.last())))
    }
}

/// `units` and behind them the fields of the functions, each behind its
/// comment.
pub open spec fn with_call_fields(
    units: Seq<Node>,
    entries: Seq<(Seq<char>, Signature)>,
) -> Seq<Node>
    decreases entries.len(),
{
    if entries.len() == 0 {
        units
    } else {
        with_comment(with_call_fields(units, entries.drop_last()), entries.last().1.cmt).push(
            Node::Line(call_field(entries.last())),
        )
    }
}

/// `units` and behind them the constructor parameters of the callbacks.
pub open spec fn with_parameters(
    units: Seq<Node>,
    entries: Seq<(Seq<char>, Signature)>,
) -> Seq<Node>
    decreases entries.len(),
{
    if entries.len() == 0 {
        units
    } else {
        with_parameters(units, entries.drop_last()).push(Node::Line(parameter(entries.last())))
    }
}

/// `units` and behind them the initializers of the functions.
pub open spec fn with_initializers(
    units: Seq<Node>,
    entries: Seq<(Seq<char>, Signature)>,
) -> Seq<Node>
    decreases entries.len(),
{
    if entries.len() == 0 {
        units
    } else {
        with_initializers(units, entries.drop_last()).push(
            Node::Line(initializer(entries.last(), entries.len() == 1)),
        )
    }
}

/// The body of the wrapper class: a field for each callback, a field for
/// each function, and the constructor, which takes the library handle and
/// the callbacks and binds each function to its symbol.
pub open spec fn class_body(
    class_name: Seq<char>,
    calls: Seq<(Seq<char>, Signature)>,
    callbacks: Seq<(Seq<char>, Signature)>,
) -> Seq<Node> {
    let fields = with_call_fields(
        with_callback_fields(seq![Node::Comment(unroll("Callbacks"@))], callbacks).push(
            Node::Comment(unroll("Functions"@)),
        ),
        calls,
    );
    let head = with_parameters(
        fields.push(Node::Comment(unroll("Constructor"@))).push(
            Node::Line(class_name + "("@),
        ).push(Node::Line("    DynamicLibrary dylib"@)),
        callbacks,
    );
    with_initializers(
        head.push(Node::Line(")"@)).push(Node::Comment(unroll("Init functions"@))),
        calls,
    ).push(Node::Line("{}"@))
}

/// The state after the declarations `entities` of a header are translated:
/// the import line, the declarations that the functions in scope refer to
/// and those functions themselves, then the other declarations in scope,
/// and last the wrapper class of all functions and callbacks.
pub open spec fn translation(st: State, entities: Seq<Entity>) -> State {
    let begun = State {
        units: st.units.push(Node::Line("import 'dart:ffi';"@)).push(Node::Line(""@)),
        ..st
    };
    let done = second_pass(first_pass(begun, entities), entities);
    State {
        units: done.units.push(Node::Comment(unroll("Library class"@))).push(
            Node::Block(
                "class "@ + done.class_name,
                class_body(done.class_name, done.calls, done.callbacks),
            ),
        ),
        ..done
    }
}


/// Whether the state `after` continues the state `before`: the configuration
/// is the same, no registered name is lost, and what was emitted and
/// collected before is still there, in front of anything new.
pub open spec fn continues(before: State, after: State) -> bool {
    &&& after.pattern == before.pattern
    &&& after.template == before.template
    &&& after.class_name == before.class_name
    &&& before.exported.subset_of(after.exported)
    &&& before.units.is_prefix_of(after.units)
    &&& before.calls.is_prefix_of(after.calls)
    &&& before.callbacks.is_prefix_of(after.callbacks)
}

/// A state continues itself, and continuing is transitive.
pub proof fn lemma_continues_chain(a: State, b: State, c: State)
    requires
        continues(a, b),
        continues(b, c),
    ensures
        continues(a, a),
        continues(a, c),
{
    assert(a.units =~= a.units.subrange(0, a.units.len() as int));
    assert(a.calls =~= a.calls.subrange(0, a.calls.len() as int));
    assert(a.callbacks =~= a.callbacks.subrange(0, a.callbacks.len() as int));
    assert(a.units =~= c.units.subrange(0, a.units.len() as int));
    assert(a.calls =~= c.calls.subrange(0, a.calls.len() as int));
    assert(a.callbacks =~= c.callbacks.subrange(0, a.callbacks.len() as int));
}

proof fn lemma_continues_self(a: State)
    ensures
        continues(a, a),
{
    lemma_continues_chain(a, a, a);
}

proof fn lemma_with_comment_appends(units: Seq<Node>, comment: Option<Seq<char>>)
    ensures
        units.is_prefix_of(with_comment(units, comment)),
        forall|node: Node| units.is_prefix_of(#[trigger] with_comment(units, comment).push(node)),
{
    let commented = with_comment(units, comment);
    assert(units =~= commented.subrange(0, units.len() as int));
    assert forall|node: Node| units.is_prefix_of(#[trigger] commented.push(node)) by {
        assert(units =~= commented.push(node).subrange(0, units.len() as int));
    }
}

/// Translating a declaration only appends: the state afterwards continues
/// the state before.
pub proof fn lemma_with_entity_continues(
    st: State,
    name: Seq<char>,
    xname: Seq<char>,
    entity: Entity,
)
    ensures
        continues(st, with_entity(st, name, xname, entity)),
        with_entity(st, name, xname, entity).exported == st.exported,
        with_entity(st, name, xname, entity).typenames == st.typenames,
{
    lemma_continues_self(st);
    lemma_with_comment_appends(st.units, text_of(entity.comment));
    let after = with_entity(st, name, xname, entity);
    assert(st.callbacks =~= after.callbacks.subrange(0, st.callbacks.len() as int));
}

/// The export-once rule at a type reference. A declaration whose name is
/// registered is not translated again: the state stays as it is. A
/// declaration that is translated has its name registered afterwards, and a
/// second reference right behind the first changes nothing. In every case
/// the state afterwards continues the state before.
pub proof fn lemma_visit_entity_once(st: State, entity: Entity)
    ensures
        entity.name matches Some(name) && st.exported.contains(name@) ==> visit_entity(st, entity)
            == st,
        entity.name matches Some(name) ==> (translates(entity) ==> visit_entity(
            st,
            entity,
        ).exported.contains(name@)),
        visit_entity(visit_entity(st, entity), entity) == visit_entity(st, entity),
        continues(st, visit_entity(st, entity)),
{
    lemma_continues_self(st);
    match entity.name {
        Some(name) => {
            lemma_with_entity_continues(st, name@, host_name(st, name@), entity);
        },
        None => {},
    }
}

/// The export-once rule for a type: visiting a type a second time right
/// behind the first changes nothing, and the state after a visit continues
/// the state before.
pub proof fn lemma_visit_type_once(st: State, ty: Type)
    ensures
        visit_type(visit_type(st, ty), ty) == visit_type(st, ty),
        continues(st, visit_type(st, ty)),
    decreases ty,
{
    lemma_continues_self(st);
    match ty.declaration {
        Some(entity) => lemma_visit_entity_once(st, *entity),
        None => match ty.shape {
            Shape::Pointer(pointee) => lemma_visit_type_once(st, *pointee),
            _ => {},
        },
    }
}

/// The arguments of a function only append to the state.
pub proof fn lemma_visit_args_continues(st: State, xname: Seq<char>, args: Seq<Argument>)
    ensures
        continues(st, visit_args(st, xname, args).0),
    decreases args.len(),
{
    lemma_continues_self(st);
    if args.len() > 0 {
        lemma_visit_args_continues(st, xname, args.drop_last());
        let before = visit_args(st, xname, args.drop_last());
        let after = visit_arg(before.0, before.1, xname, args.last());
        match callback_type(args.last().ty) {
            Some(_) => {
                lemma_continues_self(before.0);
                assert(before.0.callbacks =~= after.0.callbacks.subrange(
                    0,
                    before.0.callbacks.len() as int,
                ));
            },
            None => lemma_visit_type_once(before.0, args.last().ty),
        }
        lemma_continues_chain(st, before.0, after.0);
    }
}

/// A function only appends to the state.
pub proof fn lemma_visit_function_continues(st: State, name: Seq<char>, entity: Entity)
    ensures
        continues(st, visit_function(st, name, entity)),
{
    lemma_continues_self(st);
    let xname = host_name(st, name);
    let seen = match entity.kind {
        EntityKind::Function(res, args) => visit_args(visit_type(st, res), xname, args@).0,
        _ => st,
    };
    match entity.kind {
        EntityKind::Function(res, args) => {
            lemma_visit_type_once(st, res);
            lemma_visit_args_continues(visit_type(st, res), xname, args@);
            lemma_continues_chain(st, visit_type(st, res), seen);
        },
        _ => {},
    }
    let after = visit_function(st, name, entity);
    lemma_continues_self(seen);
    assert(seen.calls =~= after.calls.subrange(0, seen.calls.len() as int));
    lemma_continues_chain(st, seen, after);
}

/// The first pass only appends to the state.
pub proof fn lemma_first_pass_continues(st: State, entities: Seq<Entity>)
    ensures
        continues(st, first_pass(st, entities)),
    decreases entities.len(),
{
    lemma_continues_self(st);
    if entities.len() > 0 {
        lemma_first_pass_continues(st, entities.drop_last());
        let before = first_pass(st, entities.drop_last());
        lemma_continues_self(before);
        match entities.last().name {
            Some(name) => lemma_visit_function_continues(before, name@, entities.last()),
            None => {},
        }
        lemma_continues_chain(st, before, first_step(before, entities.last()));
    }
}

/// The export-once rule in the second pass: a declaration whose name is
/// registered changes nothing, and a declaration in scope has its name
/// registered afterwards. In every case the state afterwards continues the
/// state before.
pub proof fn lemma_second_step_once(st: State, entity: Entity)
    ensures
        entity.name matches Some(name) && st.exported.contains(name@) ==> second_step(st, entity)
            == st,
        entity.name matches Some(name) ==> (regex_is_match(st.pattern, name@) ==> second_step(
            st,
            entity,
        ).exported.contains(name@)),
        second_step(second_step(st, entity), entity) == second_step(st, entity),
        continues(st, second_step(st, entity)),
{
    lemma_continues_self(st);
    match entity.name {
        Some(name) => {
            let registered = State { exported: st.exported.insert(name@), ..st };
            lemma_continues_self(registered);
            lemma_with_entity_continues(registered, name@, host_name(st, name@), entity);
            lemma_continues_chain(
                st,
                registered,
                with_entity(registered, name@, host_name(st, name@), entity),
            );
        },
        None => {},
    }
}

/// The second pass only appends to the state.
pub proof fn lemma_second_pass_continues(st: State, entities: Seq<Entity>)
    ensures
        continues(st, second_pass(st, entities)),
    decreases entities.len(),
{
    lemma_continues_self(st);
    if entities.len() > 0 {
        lemma_second_pass_continues(st, entities.drop_last());
        let before = second_pass(st, entities.drop_last());
        lemma_second_step_once(before, entities.last());
        lemma_continues_chain(st, before, second_step(before, entities.last()));
    }
}

/// Export once, over a whole run: a name that is registered when a run
/// starts is still registered when it ends, what was emitted before the run
/// stands in front of what the run emits, and a type reference to a
/// declaration of that name emits nothing after the run.
pub proof fn lemma_translation_exports_once(st: State, entities: Seq<Entity>, entity: Entity)
    requires
        entity.name matches Some(name) && st.exported.contains(name@),
    ensures
        continues(st, translation(st, entities)),
        visit_entity(translation(st, entities), entity) == translation(st, entities),
{
    let begun = State {
        units: st.units.push(Node::Line("import 'dart:ffi';"@)).push(Node::Line(""@)),
        ..st
    };
    lemma_continues_self(st);
    assert(st.units =~= begun.units.subrange(0, st.units.len() as int));
    lemma_first_pass_continues(begun, entities);
    let first = first_pass(begun, entities);
    lemma_second_pass_continues(first, entities);
    let done = second_pass(first, entities);
    lemma_continues_chain(st, begun, first);
    lemma_continues_chain(st, first, done);
    let end = translation(st, entities);
    lemma_continues_self(done);
    assert(done.units =~= end.units.subrange(0, done.units.len() as int));
    lemma_continues_chain(st, done, end);
    lemma_visit_entity_once(end, entity);
}

/// The descriptors of a list, each with the name it is kept under.
pub open spec fn entries(list: Seq<(String, FuncDef)>) -> Seq<(Seq<char>, Signature)> {
    list.map_values(|entry: (String, FuncDef)| (entry.0@, entry.1@))
}

proof fn lemma_name_table_insert(typenames: Map<Seq<char>, String>, name: Seq<char>, xname: String)
    ensures
        name_table(typenames.insert(name, xname)) == name_table(typenames).insert(name, xname@),
{
    assert(name_table(typenames.insert(name, xname)) =~= name_table(typenames).insert(
        name,
        xname@,
    ));
}

proof fn lemma_entries_push(list: Seq<(String, FuncDef)>, entry: (String, FuncDef))
    ensures
        entries(list.push(entry)) == entries(list).push((entry.0@, entry.1@)),
{
    assert(entries(list.push(entry)) =~= entries(list).push((entry.0@, entry.1@)));
}

/// Appends the comment to `coder`, where there is one.
fn put_comment(coder: &mut Coder, comment: &Option<String>)
    ensures
        final(coder)@ == with_comment(old(coder)@, text_of(*comment)),
{
    match comment {
        Some(comment) => coder.comment(comment.as_str()),
        None => {},
    }
}

/// The translation of a header's declarations, in progress.
pub struct Translator {
    options: Options,
    exported: StringHashSet,
    typenames: StringHashMap<String>,
    calls: Vec<(String, FuncDef)>,
    callbacks: Vec<(String, FuncDef)>,
    coder: Coder,
}

impl View for Translator {
    type V = State;

    closed spec fn view(&self) -> State {
        State {
            pattern: self.options.names_match@,
            template: self.options.names_replace@,
            class_name: self.options.class_name@,
            exported: self.exported@,
            typenames: name_table(self.typenames@),
            calls: entries(self.calls@),
            callbacks: entries(self.callbacks@),
            units: self.coder@,
        }
    }
}

impl Translator {
    /// A translator under `options` that has translated nothing yet.
    pub fn new(options: Options) -> (translator: Translator)
        ensures
            translator@ == initial(options),
    {
        let translator = Translator {
            options,
            exported: StringHashSet::new(),
            typenames: StringHashMap::new(),
            calls: Vec::new(),
            callbacks: Vec::new(),
            coder: Coder::new(),
        };
        assert(translator@ =~= initial(options));
        translator
    }

    /// The emitter that holds what was translated so far.
    pub fn coder(&self) -> (coder: &Coder)
        ensures
            coder@ == self@.units,
    {
        &self.coder
    }

    /// Whether `name` is in scope.
    pub fn match_name(&self, name: &str) -> (found: bool)
        ensures
            found == regex_is_match(self@.pattern, name@),
    {
        self.options.names_match.is_match(name)
    }

    /// The host name of the source name `name`.
    pub fn make_name(&self, name: &str) -> (xname: String)
        ensures
            xname@ == host_name(self@, name@),
    {
        self.options.names_match.replace(name, self.options.names_replace.as_str())
    }

    /// Registers `name`, and tells whether it was new.
    pub fn export_once(&mut self, name: &str) -> (fresh: bool)
        ensures
            fresh == !old(self)@.exported.contains(name@),
            final(self)@ == (State { exported: old(self)@.exported.insert(name@), ..old(self)@ }),
    {
        if self.exported.contains(name) {
            assert(self@.exported.insert(name@) =~= self@.exported);
            false
        } else {
            self.exported.insert(String::from_str(name));
            true
        }
    }

    /// Appends the enum `entity`: its comment, and a block with one constant
    /// for each member.
    pub fn translate_enum(&mut self, name: &str, xname: &str, entity: &Entity)
        ensures
            final(self)@ == (State {
                units: with_enum(old(self)@.units, name@, xname@, *entity),
                ..old(self)@
            }),
    {
        put_comment(&mut self.coder, &entity.comment);
        let mut header = String::from_str("class ");
        header.append(xname);
        self.coder.block(
            header.as_str(),
            |coder: &mut Coder|
                requires
                    old(coder)@.len() == 0,
                ensures
                    final(coder)@ == enum_body(name@, constants_of(*entity))
                {
                    match &entity.kind {
                        EntityKind::Enum(constants) => {
                            let ghost members = enum_body(name@, constants@);
                            let mut i: usize = 0;
                            assert(coder@ == members.take(0));
                            while i < constants.len()
                                invariant
                                    i <= constants.len(),
                                    members == enum_body(name@, constants@),
                                    coder@ == members.take(i as int),
                                decreases constants.len() - i,
                            {
                                let constant = &constants[i];
                                let short = without_prefix(constant.name.as_str(), name);
                                let mut line = String::from_str("static const ");
                                line.append(short.as_str());
                                line.append(" = ");
                                append_decimal(&mut line, constant.value);
                                line.append(";");
                                coder.line(line.as_str());
                                assert(members.take(i + 1) == members.take(i as int).push(
                                    members[i as int],
                                ));
                                i += 1;
                            }
                            assert(members.take(constants.len() as int) == members);
                        },
                        _ => {
                            assert(coder@ == enum_body(name@, constants_of(*entity)));
                        },
                    }
                },
        );
    }

    /// Appends the field `field`: its comment and its declaration.
    pub fn translate_field(coder: &mut Coder, field: &Field)
        ensures
            final(coder)@ == with_field(old(coder)@, *field),
    {
        let ffi_type = type_annotation(field.scalar);
        let native_type = native_type(field.scalar);
        put_comment(coder, &field.comment);
        let mut line = ffi_type;
        line.append(" ");
        line.append(native_type);
        line.append(" ");
        line.append(field.name.as_str());
        line.append(";");
        coder.line(line.as_str());
    }

    /// Appends a struct with the fields `fields` under the host name `xname`.
    fn put_struct(&mut self, xname: &str, comment: &Option<String>, fields: &Vec<Field>)
        ensures
            final(self)@ == (State {
                units: with_struct(old(self)@.units, xname@, text_of(*comment), fields@),
                ..old(self)@
            }),
    {
        put_comment(&mut self.coder, comment);
        let mut header = String::from_str("class ");
        header.append(xname);
        header.append(" extends Struct");
        self.coder.block(
            header.as_str(),
            |coder: &mut Coder|
                requires
                    old(coder)@.len() == 0,
                ensures
                    final(coder)@ == with_fields(Seq::empty(), fields@)
                {
                    let mut i: usize = 0;
                    assert(fields@.take(0).len() == 0);
                    assert(coder@ == Seq::<Node>::empty());
                    while i < fields.len()
                        invariant
                            i <= fields.len(),
                            coder@ == with_fields(Seq::empty(), fields@.take(i as int)),
                        decreases fields.len() - i,
                    {
                        proof {
                            let upto = fields@.take(i + 1);
                            assert(upto.drop_last() == fields@.take(i as int));
                            assert(upto.last() == fields@[i as int]);
                        }
                        Self::translate_field(coder, &fields[i]);
                        i += 1;
                    }
                    assert(fields@.take(fields.len() as int) == fields@);
                },
        );
    }

    /// Appends the struct `entity`: its comment, and a block with one
    /// declaration for each field.
    pub fn translate_struct(&mut self, name: &str, xname: &str, entity: &Entity)
        ensures
            final(self)@ == (State {
                units: with_struct(
                    old(self)@.units,
                    xname@,
                    text_of(entity.comment),
                    fields_of(*entity),
                ),
                ..old(self)@
            }),
    {
        match &entity.kind {
            EntityKind::Struct(fields) => self.put_struct(xname, &entity.comment, fields),
            _ => {
                let fields: Vec<Field> = Vec::new();
                self.put_struct(xname, &entity.comment, &fields);
            },
        }
    }

    /// Translates the typedef `entity`, and tells whether it was of a kind
    /// that is translated: a typedef of a struct is appended as that struct,
    /// a typedef of a function pointer joins the callbacks.
    pub fn translate_typedef(&mut self, name: &str, xname: &str, entity: &Entity) -> (done: bool)
        ensures
            done == (entity.kind matches EntityKind::Typedef(aliased) && !(aliased is Other)),
            final(self)@ == with_typedef(old(self)@, xname@, *entity),
    {
        match &entity.kind {
            EntityKind::Typedef(Aliased::Record(fields)) => {
                self.put_struct(xname, &entity.comment, fields);
                true
            },
            EntityKind::Typedef(Aliased::FunctionPointer(function)) => {
                let def = FuncDef::from_type(&self.typenames, function);
                let ghost before = self.callbacks@;
                let key = String::from_str(xname);
                proof {
                    lemma_entries_push(before, (key, def));
                }
                self.callbacks.push((key, def));
                true
            },
            _ => false,
        }
    }

    /// Translates `entity` by its kind, and tells whether it was of a kind
    /// that is translated.
    fn translate_entity(&mut self, name: &str, xname: &str, entity: &Entity) -> (done: bool)
        ensures
            done == translates(*entity),
            final(self)@ == with_entity(old(self)@, name@, xname@, *entity),
    {
        match &entity.kind {
            EntityKind::Enum(_) => {
                self.translate_enum(name, xname, entity);
                true
            },
            EntityKind::Struct(_) => {
                self.translate_struct(name, xname, entity);
                true
            },
            EntityKind::Typedef(_) => self.translate_typedef(name, xname, entity),
            _ => false,
        }
    }

    /// Visits the type `type_`: translates the declaration that it refers
    /// to, directly or through pointers, unless that was done before.
    pub fn parse_type(&mut self, type_: &Type)
        ensures
            final(self)@ == visit_type(old(self)@, *type_),
        decreases type_,
    {
        match &type_.declaration {
            Some(entity) => {
                match &entity.name {
                    Some(name) => {
                        let xname = self.make_name(name.as_str());
                        if !self.exported.contains(name.as_str()) {
                            if self.translate_entity(name.as_str(), xname.as_str(), entity) {
                                proof {
                                    lemma_name_table_insert(self.typenames@, name@, xname);
                                }
                                self.exported.insert(name.clone());
                                self.typenames.insert(name.clone(), xname);
                            }
                        }
                    },
                    None => {},
                }
            },
            None => {
                match &type_.shape {
                    Shape::Pointer(pointee) => self.parse_type(pointee),
                    _ => {},
                }
            },
        }
    }

    /// Visits the function `entity` with the source name `name`: visits its
    /// result type and its arguments, takes each argument that points to a
    /// function as a callback, and adds the function to the calls. Only a
    /// function declaration has the result type and the arguments that this
    /// needs.
    pub fn parse_function(&mut self, name: &str, entity: &Entity)
        requires
            entity.kind is Function,
        ensures
            final(self)@ == visit_function(old(self)@, name@, *entity),
    {
        let xname = self.make_name(name);
        match &entity.kind {
            EntityKind::Function(res, args) => {
                self.parse_type(res);
                let ghost begun = self@;
                let mut num: usize = 0;
                let mut i: usize = 0;
                assert(args@.take(0).len() == 0);
                while i < args.len()
                    invariant
                        i <= args.len(),
                        num <= i,
                        xname@ == host_name(old(self)@, name@),
                        (self@, num as nat) == visit_args(begun, xname@, args@.take(i as int)),
                    decreases args.len() - i,
                {
                    proof {
                        let upto = args@.take(i + 1);
                        assert(upto.drop_last() == args@.take(i as int));
                        assert(upto.last() == args@[i as int]);
                    }
                    let arg = &args[i];
                    let mut callback = false;
                    match &arg.ty.shape {
                        Shape::Pointer(pointee) => {
                            match &pointee.shape {
                                Shape::Function(_, _) => {
                                    callback = true;
                                    let mut key = xname.clone();
                                    key.append("_");
                                    match &arg.name {
                                        Some(arg_name) => {
                                            key.append(arg_name.as_str());
                                        },
                                        None => {
                                            let mut arg_name = String::from_str("cb");
                                            append_numeral(&mut arg_name, num as u64);
                                            num += 1;
                                            key.append(arg_name.as_str());
                                        },
                                    }
                                    let def = FuncDef::from_type(&self.typenames, pointee);
                                    proof {
                                        lemma_entries_push(self.callbacks@, (key, def));
                                    }
                                    self.callbacks.push((key, def));
                                },
                                _ => {},
                            }
                        },
                        _ => {},
                    }
                    if !callback {
                        self.parse_type(&arg.ty);
                    }
                    i += 1;
                }
                assert(args@.take(args.len() as int) == args@);
            },
            _ => {},
        }
        let def = FuncDef::from_entity(&self.typenames, entity);
        proof {
            lemma_entries_push(self.calls@, (xname, def));
        }
        self.calls.push((xname, def));
    }

    /// Appends the body of the wrapper class to the fresh emitter `body`.
    fn library_class(
        body: &mut Coder,
        class: &str,
        calls: &Vec<(String, FuncDef)>,
        callbacks: &Vec<(String, FuncDef)>,
    )
        requires
            old(body)@.len() == 0,
        ensures
            final(body)@ == class_body(class@, entries(calls@), entries(callbacks@)),
    {
        let ghost call_entries = entries(calls@);
        let ghost callback_entries = entries(callbacks@);
        assert(body@ == Seq::<Node>::empty());
        body.comment("Callbacks");
        let ghost start = body@;
        assert(start == seq![Node::Comment(unroll("Callbacks"@))]);

        let mut i: usize = 0;
        assert(callback_entries.take(0).len() == 0);
        while i < callbacks.len()
            invariant
                i <= callbacks.len(),
                callback_entries == entries(callbacks@),
                body@ == with_callback_fields(start, callback_entries.take(i as int)),
            decreases callbacks.len() - i,
        {
            proof {
                let upto = callback_entries.take(i + 1);
                assert(upto.drop_last() == callback_entries.take(i as int));
                assert(upto.last() == callback_entries[i as int]);
            }
            let entry = &callbacks[i];
            put_comment(body, &entry.1.cmt);
            let mut line = String::from_str("final Pointer<NativeFunction<");
            line.append(entry.1.cffi.as_str());
            line.append(">> _");
            line.append(entry.0.as_str());
            line.append(";");
            body.line(line.as_str());
            i += 1;
        }
        assert(callback_entries.take(callbacks.len() as int) == callback_entries);

        body.comment("Functions");
        let ghost start = body@;
        let mut i: usize = 0;
        assert(call_entries.take(0).len() == 0);
        while i < calls.len()
            invariant
                i <= calls.len(),
                call_entries == entries(calls@),
                body@ == with_call_fields(start, call_entries.take(i as int)),
            decreases calls.len() - i,
        {
            proof {
                let upto = call_entries.take(i + 1);
                assert(upto.drop_last() == call_entries.take(i as int));
                assert(upto.last() == call_entries[i as int]);
            }
            let entry = &calls[i];
            put_comment(body, &entry.1.cmt);
            let mut line = String::from_str("final ");
            line.append(entry.1.dart.as_str());
            line.append(" _");
            line.append(entry.0.as_str());
            line.append(";");
            body.line(line.as_str());
            i += 1;
        }
        assert(call_entries.take(calls.len() as int) == call_entries);

        body.comment("Constructor");
        let mut line = String::from_str(class);
        line.append("(");
        body.line(line.as_str());
        body.line("    DynamicLibrary dylib");
        let ghost start = body@;
        let mut i: usize = 0;
        assert(callback_entries.take(0).len() == 0);
        while i < callbacks.len()
            invariant
                i <= callbacks.len(),
                callback_entries == entries(callbacks@),
                body@ == with_parameters(start, callback_entries.take(i as int)),
            decreases callbacks.len() - i,
        {
            proof {
                let upto = callback_entries.take(i + 1);
                assert(upto.drop_last() == callback_entries.take(i as int));
                assert(upto.last() == callback_entries[i as int]);
            }
            let entry = &callbacks[i];
            let mut line = String::from_str("  , this._");
            line.append(entry.0.as_str());
            body.line(line.as_str());
            i += 1;
        }
        assert(callback_entries.take(callbacks.len() as int) == callback_entries);

        body.line(")");
        body.comment("Init functions");
        let ghost start = body@;
        let mut i: usize = 0;
        assert(call_entries.take(0).len() == 0);
        while i < calls.len()
            invariant
                i <= calls.len(),
                call_entries == entries(calls@),
                body@ == with_initializers(start, call_entries.take(i as int)),
            decreases calls.len() - i,
        {
            proof {
                let upto = call_entries.take(i + 1);
                assert(upto.drop_last() == call_entries.take(i as int));
                assert(upto.last() == call_entries[i as int]);
                reveal_strlit("");
                assert(""@ =~= Seq::<char>::empty());
            }
            let entry = &calls[i];
            let mut line = String::from_str(if i == 0 {
                ":"
            } else {
                ","
            });
            line.append(" _");
            line.append(entry.0.as_str());
            line.append(" = dylib.lookup<NativeFunction<");
            line.append(entry.1.cffi.as_str());
            line.append(">>('");
            match &entry.1.name {
                Some(name) => line.append(name.as_str()),
                None => line.append(""),
            }
            line.append("').asFunction()");
            body.line(line.as_str());
            i += 1;
        }
        assert(call_entries.take(calls.len() as int) == call_entries);

        body.line("{}");
    }

    /// Translates the declarations `entities` of a header: first the
    /// functions in scope with the declarations that their types refer to,
    /// then the other declarations in scope, and last the wrapper class.
    pub fn translate(&mut self, entities: &Vec<Entity>)
        ensures
            final(self)@ == translation(old(self)@, entities@),
    {
        self.coder.line("import 'dart:ffi';");
        self.coder.line("");
        let ghost begun = self@;

        let mut i: usize = 0;
        assert(entities@.take(0).len() == 0);
        while i < entities.len()
            invariant
                i <= entities.len(),
                self@ == first_pass(begun, entities@.take(i as int)),
            decreases entities.len() - i,
        {
            proof {
                let upto = entities@.take(i + 1);
                assert(upto.drop_last() == entities@.take(i as int));
                assert(upto.last() == entities@[i as int]);
            }
            let entity = &entities[i];
            match &entity.name {
                Some(name) => {
                    if self.match_name(name.as_str()) {
                        match &entity.kind {
                            EntityKind::Function(_, _) => self.parse_function(
                                name.as_str(),
                                entity,
                            ),
                            _ => {},
                        }
                    }
                },
                None => {},
            }
            i += 1;
        }
        assert(entities@.take(entities.len() as int) == entities@);
        let ghost first = self@;

        let mut i: usize = 0;
        while i < entities.len()
            invariant
                i <= entities.len(),
                self@ == second_pass(first, entities@.take(i as int)),
            decreases entities.len() - i,
        {
            proof {
                let upto = entities@.take(i + 1);
                assert(upto.drop_last() == entities@.take(i as int));
                assert(upto.last() == entities@[i as int]);
            }
            let entity = &entities[i];
            match &entity.name {
                Some(name) => {
                    if self.match_name(name.as_str()) {
                        let xname = self.make_name(name.as_str());
                        if self.export_once(name.as_str()) {
                            self.translate_entity(name.as_str(), xname.as_str(), entity);
                        }
                    }
                },
                None => {},
            }
            i += 1;
        }
        assert(entities@.take(entities.len() as int) == entities@);

        self.coder.comment("Library class");
        let class = self.options.class_name.as_str();
        let calls = &self.calls;
        let callbacks = &self.callbacks;
        let mut header = String::from_str("class ");
        header.append(class);
        self.coder.block(
            header.as_str(),
            |coder: &mut Coder|
                requires
                    old(coder)@.len() == 0,
                ensures
                    final(coder)@ == class_body(class@, entries(calls@), entries(callbacks@))
                {
                    Self::library_class(coder, class, calls, callbacks);
                },
        );
    }
}

} // verus!
