//! The file that lists the modules which an application has loaded.

use vstd::prelude::*;

use crate::pyembed::operations;
use crate::pyembed::script;
use crate::pyembed::script::{
    no_steps, push_step, Call, Failure, OnFailure, Script, Step,
};
use crate::text;

verus! {

/// Whether `c` can stand at place `i` of a random (version 4) UUID in its
/// hyphenated, lower-case form.
pub open spec fn is_random_uuid_char(i: int, c: char) -> bool {
    if i == 8 || i == 13 || i == 18 || i == 23 {
        c == '-'
    } else if i == 14 {
        c == '4'
    } else if i == 19 {
        c == '8' || c == '9' || c == 'a' || c == 'b'
    } else {
        '0' <= c <= '9' || 'a' <= c <= 'f'
    }
}

/// Whether `text` is a random (version 4) UUID in its hyphenated, lower-case
/// form.
pub open spec fn is_random_uuid(text: Seq<char>) -> bool {
    &&& text.len() == 36
    &&& forall|i: int| 0 <= i < 36 ==> is_random_uuid_char(i, #[trigger] text[i])
}

/// Calls `uuid::Uuid::new_v4`, which draws random bits from the operating
/// system and sets the version to 4 and the variant to that of RFC 9562, and
/// gives the result in the form that its `Display` writes: 32 lower-case
/// hexadecimal digits in five groups, with hyphens between them. Which of
/// these texts comes back is left to chance.
#[verifier::external_body]
fn random_uuid() -> (text: String)
    ensures
        is_random_uuid(text@),
{
    uuid::Uuid::new_v4().to_string()
}

/// The name of the modules file with this identifier.
pub open spec fn modules_file(id: Seq<char>) -> Seq<char> {
    "modules-"@ + id
}

/// The name of the modules file with this identifier.
pub fn modules_file_name(id: &str) -> (name: String)
    ensures
        name@ == modules_file(id@),
{
    let mut name = "modules-".to_owned();
    name.append(id);
    name
}

/// The calls that open a modules file in a directory.
pub open spec fn modules_script(directory: Seq<char>, id: Seq<char>) -> Script {
    seq![
        operations::step(
            Call::CreateDirectory(directory),
            OnFailure::Panic(Failure::CreateDirectory),
        ),
        operations::step(Call::Import("sys"@), OnFailure::Panic(Failure::SysModule)),
        operations::step(
            Call::GetSysAttribute("modules"@),
            OnFailure::Panic(Failure::SysModules),
        ),
        operations::step(
            Call::CastDictionary,
            OnFailure::Panic(Failure::SysModulesNotDictionary),
        ),
        operations::step(
            Call::CreateFile { directory, name: modules_file(id) },
            OnFailure::Panic(Failure::OpenFile),
        ),
    ]
}

/// Write loaded Python modules to a directory, under this identifier.
///
/// These calls create a file in that directory named `modules-<id>`.
pub fn write_modules_with_id(directory: &str, id: &str) -> (steps: Vec<Step<String>>)
    ensures
        script::script_of(steps@) == modules_script(directory@, id@),
{
    let mut steps = no_steps();
    push_step(
        &mut steps,
        Call::CreateDirectory(directory.to_owned()),
        OnFailure::Panic(Failure::CreateDirectory),
    );
    push_step(
        &mut steps,
        Call::Import("sys".to_owned()),
        OnFailure::Panic(Failure::SysModule),
    );
    push_step(
        &mut steps,
        Call::GetSysAttribute("modules".to_owned()),
        OnFailure::Panic(Failure::SysModules),
    );
    push_step(
        &mut steps,
        Call::CastDictionary,
        OnFailure::Panic(Failure::SysModulesNotDictionary),
    );
    push_step(
        &mut steps,
        Call::CreateFile { directory: directory.to_owned(), name: modules_file_name(id) },
        OnFailure::Panic(Failure::OpenFile),
    );
    assert(script::script_of(steps@) =~= modules_script(directory@, id@));
    steps
}

/// Write loaded Python modules to a directory.
///
/// Given a path to a directory, these calls create a file in that directory
/// named `modules-<UUID>`. The keys of `sys.modules` then go into that file
/// through the calls of `write_module_names`.
pub fn write_modules_to_directory(directory: &str) -> (steps: Vec<Step<String>>)
    ensures
        exists|id: Seq<char>|
            is_random_uuid(id) && script::script_of(steps@) == #[trigger] modules_script(
                directory@,
                id,
            ),
{
    let id = random_uuid();
    write_modules_with_id(directory, id.as_str())
}

/// The line of a module in the modules file.
pub fn module_line(name: &str) -> (line: String)
    ensures
        line@ == name@.push('\n'),
{
    proof {
        reveal_strlit("\n");
    }
    let mut line = name.to_owned();
    line.append("\n");
    assert(line@ =~= name@.push('\n'));
    line
}

/// The contents of a modules file: the lines of its modules.
pub open spec fn listing(names: Seq<Seq<char>>) -> Seq<char>
    decreases names.len(),
{
    if names.len() == 0 {
        Seq::empty()
    } else {
        names[0].push('\n') + listing(names.drop_first())
    }
}

/// The keys of a dictionary: the text of each key that is a string.
pub open spec fn key_texts(keys: Seq<Option<String>>) -> Seq<Option<Seq<char>>> {
    keys.map_values(|key: Option<String>| text::optional_text(key))
}

/// The keys before the first one that is not a string.
pub open spec fn leading_names(keys: Seq<Option<Seq<char>>>) -> Seq<Seq<char>>
    decreases keys.len(),
{
    if keys.len() == 0 {
        Seq::empty()
    } else {
        match keys[0] {
            Some(name) => seq![name] + leading_names(keys.drop_first()),
            None => Seq::empty(),
        }
    }
}

/// Whether every key is a string.
pub open spec fn all_names(keys: Seq<Option<Seq<char>>>) -> bool {
    forall|i: int| 0 <= i < keys.len() ==> #[trigger] keys[i] is Some
}

/// The calls that write the keys of `sys.modules` into the modules file, up to
/// the first one that is not a string, which is a failure.
pub open spec fn module_names_script(keys: Seq<Option<Seq<char>>>) -> Script {
    seq![
        operations::step(
            Call::WriteFile(listing(leading_names(keys))),
            OnFailure::Panic(Failure::WriteFile),
        ),
    ] + operations::only_if(
        !all_names(keys),
        seq![operations::step(Call::Reject, OnFailure::Panic(Failure::ModuleNameNotString))],
    )
}

/// One more name adds its line to the contents.
pub proof fn lemma_listing_push(names: Seq<Seq<char>>, name: Seq<char>)
    ensures
        listing(names.push(name)) == listing(names) + name.push('\n'),
    decreases names.len(),
{
    let all = names.push(name);
    if names.len() == 0 {
        assert(all.drop_first() =~= Seq::<Seq<char>>::empty());
        assert(listing(all.drop_first()) =~= Seq::<char>::empty());
        assert(listing(all) =~= listing(names) + name.push('\n'));
    } else {
        assert(all.drop_first() =~= names.drop_first().push(name));
        lemma_listing_push(names.drop_first(), name);
        assert(listing(all) =~= listing(names) + name.push('\n'));
    }
}

/// The contents of a modules file: each name, followed by `\n`, and nothing
/// else.
pub fn modules_listing(names: &Vec<String>) -> (contents: String)
    ensures
        contents@ == listing(text::texts(names@)),
{
    let mut contents = String::new();
    assert(text::texts(names@.take(0)) =~= Seq::<Seq<char>>::empty());
    for i in 0..names.len()
        invariant
            contents@ == listing(text::texts(names@.take(i as int))),
    {
        let line = module_line(names[i].as_str());
        contents.append(line.as_str());
        proof {
            let before = text::texts(names@.take(i as int));
            assert(text::texts(names@.take(i + 1)) =~= before.push(names@[i as int]@));
            lemma_listing_push(before, names@[i as int]@);
        }
    }
    assert(names@.take(names@.len() as int) =~= names@);
    contents
}

/// The calls that write the keys of `sys.modules` into the modules file. Each
/// key comes as its text, or as nothing where it is not a string.
pub fn write_module_names(keys: &Vec<Option<String>>) -> (steps: Vec<Step<String>>)
    ensures
        script::script_of(steps@) == module_names_script(key_texts(keys@)),
{
    let ghost texts = key_texts(keys@);
    let mut names: Vec<String> = Vec::new();
    let mut next: usize = 0;
    let mut complete = true;
    assert(text::texts(names@) + leading_names(texts.skip(0)) =~= leading_names(texts)) by {
        assert(texts.skip(0) =~= texts);
    }
    while complete && next < keys.len()
        invariant
            texts == key_texts(keys@),
            next <= keys.len(),
            forall|i: int| 0 <= i < next ==> #[trigger] texts[i] is Some,
            complete ==> text::texts(names@) + leading_names(texts.skip(next as int))
                == leading_names(texts),
            !complete ==> next < keys.len() && texts[next as int] is None && text::texts(names@)
                == leading_names(texts),
        decreases keys.len() - next + (if complete { 1int } else { 0 }),
    {
        let ghost before = text::texts(names@);
        let ghost rest = texts.skip(next as int);
        assert(rest[0] == texts[next as int]);
        match &keys[next] {
            Some(name) => {
                names.push(name.clone());
                assert(text::texts(names@) =~= before.push(name@));
                assert(rest.drop_first() =~= texts.skip(next + 1));
                assert(before.push(name@) + leading_names(texts.skip(next + 1)) =~= before
                    + leading_names(rest));
                next = next + 1;
            },
            None => {
                assert(before + leading_names(rest) =~= before);
                complete = false;
            },
        }
    }
    if complete {
        assert(text::texts(names@) + leading_names(texts.skip(next as int)) =~= text::texts(names@));
    }
    assert(complete == all_names(texts));
    let mut steps = no_steps();
    push_step(
        &mut steps,
        Call::WriteFile(modules_listing(&names)),
        OnFailure::Panic(Failure::WriteFile),
    );
    if !complete {
        push_step(&mut steps, Call::Reject, OnFailure::Panic(Failure::ModuleNameNotString));
    }
    assert(script::script_of(steps@) =~= module_names_script(texts));
    steps
}

/// Where every key of `sys.modules` is a string, one call writes the line of
/// each key, once and in order, and nothing else.
pub proof fn law_every_name_is_listed(names: Seq<Seq<char>>)
    ensures
        module_names_script(names.map_values(|name: Seq<char>| Some(name))) == seq![
            operations::step(
                Call::WriteFile(listing(names)),
                OnFailure::Panic(Failure::WriteFile),
            ),
        ],
{
    let keys = names.map_values(|name: Seq<char>| Some(name));
    lemma_leading_names(names);
    assert(all_names(keys));
    assert(module_names_script(keys) =~= seq![
        operations::step(
            Call::WriteFile(listing(names)),
            OnFailure::Panic(Failure::WriteFile),
        ),
    ]);
}

/// Where every key is a string, no key comes after one that is not.
proof fn lemma_leading_names(names: Seq<Seq<char>>)
    ensures
        leading_names(names.map_values(|name: Seq<char>| Some(name))) == names,
    decreases names.len(),
{
    let keys = names.map_values(|name: Seq<char>| Some(name));
    if names.len() == 0 {
        assert(leading_names(keys) =~= names);
    } else {
        lemma_leading_names(names.drop_first());
        assert(keys.drop_first() =~= names.drop_first().map_values(|name: Seq<char>| Some(name)));
        assert(seq![names[0]] + names.drop_first() =~= names);
    }
}

/// The names that a reader finds in a modules file, one before each `\n`,
/// where `begun` has been read of the current one.
pub open spec fn listed(text: Seq<char>, begun: Seq<char>) -> Seq<Seq<char>>
    decreases text.len(),
{
    if text.len() == 0 {
        Seq::empty()
    } else if text[0] == '\n' {
        seq![begun] + listed(text.drop_first(), Seq::empty())
    } else {
        listed(text.drop_first(), begun.push(text[0]))
    }
}

/// A reader takes a line of a modules file as one name.
proof fn lemma_listed_line(name: Seq<char>, rest: Seq<char>, begun: Seq<char>)
    requires
        !name.contains('\n'),
    ensures
        listed(name.push('\n') + rest, begun) == seq![begun + name] + listed(rest, Seq::empty()),
    decreases name.len(),
{
    let text = name.push('\n') + rest;
    if name.len() == 0 {
        assert(text.drop_first() =~= rest);
        assert(begun + name =~= begun);
    } else {
        assert(name.contains(name[0]));
        assert(text.drop_first() =~= name.drop_first().push('\n') + rest);
        assert forall|c: char| name.drop_first().contains(c) implies name.contains(c) by {
            let i = choose|i: int| 0 <= i < name.drop_first().len() && name.drop_first()[i] == c;
            assert(name[i + 1] == c);
        }
        lemma_listed_line(name.drop_first(), rest, begun.push(name[0]));
        assert(begun.push(name[0]) + name.drop_first() =~= begun + name);
    }
}

/// A modules file is a `\n` delimited list of names: a reader finds the names
/// that were written, in their order, as long as none of them holds a `\n`.
pub proof fn law_listing_holds_the_names(names: Seq<Seq<char>>)
    requires
        forall|i: int| 0 <= i < names.len() ==> !(#[trigger] names[i]).contains('\n'),
    ensures
        listed(listing(names), Seq::empty()) == names,
    decreases names.len(),
{
    if names.len() == 0 {
        assert(listed(listing(names), Seq::empty()) =~= names);
    } else {
        let rest = names.drop_first();
        assert forall|i: int| 0 <= i < rest.len() implies !(#[trigger] rest[i]).contains('\n') by {
            assert(rest[i] == names[i + 1]);
        }
        law_listing_holds_the_names(rest);
        lemma_listed_line(names[0], listing(rest), Seq::empty());
        assert(Seq::<char>::empty() + names[0] =~= names[0]);
        assert(seq![names[0]] + rest =~= names);
    }
}

} // verus!
