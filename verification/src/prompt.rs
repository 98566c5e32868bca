//! The prompt sent to the language model: a fixed system instruction, and a
//! user message that carries the retrieved table descriptions and the question.

use vstd::prelude::*;

verus! {

/// One retrieved table description.
#[derive(Debug)]
pub struct TableContent {
    pub content: String,
}

/// The role of the first message.
pub const SYSTEM_ROLE: &'static str = "system";

/// The role of the second message.
pub const USER_ROLE: &'static str = "user";

/// The instruction that opens every conversation.
pub const SYSTEM_INSTRUCTION: &'static str =
    " \n    You are an AI assistant that answers questions about database schemas and tables. \n    Your answer always includes information about the relevant tables and their purpose. \n    When you add a query to your answer, always mark it with ```sql.\n    Always use numbers when enumerating items.\n    ";

/// What stands before the table descriptions in the user message.
pub const USER_OPENING: &'static str = "\n        Here are the tables in our database:\n        ";

/// What stands between the table descriptions and the question.
pub const USER_BRIDGE: &'static str =
    "\n\n        Based on the tables in our database given above, please answer the following question:\n        ";

/// What stands after the question.
pub const USER_CLOSING: &'static str = "\n        ";

/// `part` stands in `text` at position `at`.
pub open spec fn occurs_at(text: Seq<char>, part: Seq<char>, at: int) -> bool {
    &&& 0 <= at
    &&& at + part.len() <= text.len()
    &&& text.subrange(at, at + part.len()) == part
}

/// The lines joined by single newlines, with none at either end.
pub open spec fn join_lines(lines: Seq<Seq<char>>) -> Seq<char>
    decreases lines.len(),
{
    if lines.len() == 0 {
        Seq::empty()
    } else if lines.len() == 1 {
        lines[0]
    } else {
        join_lines(lines.drop_last()) + seq!['\n'] + lines.last()
    }
}

/// Where line `index` starts in `join_lines(lines)`.
pub open spec fn line_start(lines: Seq<Seq<char>>, index: int) -> int
    decreases index,
{
    if index <= 0 {
        0
    } else {
        line_start(lines, index - 1) + lines[index - 1].len() + 1
    }
}

/// The text of the user message for a context and a question.
pub open spec fn user_message(context: Seq<char>, query: Seq<char>) -> Seq<char> {
    USER_OPENING@ + context + USER_BRIDGE@ + query + USER_CLOSING@
}

/// The two messages of a prompt, each a role and a content.
pub open spec fn prompt_messages(context: Seq<char>, query: Seq<char>) -> Seq<
    (Seq<char>, Seq<char>),
> {
    seq![(SYSTEM_ROLE@, SYSTEM_INSTRUCTION@), (USER_ROLE@, user_message(context, query))]
}

/// The contents of the rows, in their order.
pub open spec fn contents_of(rows: Seq<TableContent>) -> Seq<Seq<char>> {
    Seq::new(rows.len(), |i: int| rows[i].content@)
}

/// Builds the prompt for a context that is already one text.
pub fn create_prompt(context: String, query: String) -> (messages: Vec<(String, String)>)
    ensures
        messages.deep_view() == prompt_messages(context@, query@),
{
    let system = String::from_str(SYSTEM_INSTRUCTION);
    let mut user = String::from_str(USER_OPENING);
    user.append(context.as_str());
    user.append(USER_BRIDGE);
    user.append(query.as_str());
    user.append(USER_CLOSING);
    let mut messages: Vec<(String, String)> = Vec::new();
    messages.push((String::from_str(SYSTEM_ROLE), system));
    messages.push((String::from_str(USER_ROLE), user));
    assert(messages.deep_view() =~= prompt_messages(context@, query@));
    messages
}

/// Joins the contents of the rows by newlines.
pub fn join_contents(rows: &Vec<TableContent>) -> (joined: String)
    ensures
        joined@ == join_lines(contents_of(rows@)),
{
    let mut joined = String::new();
    let ghost lines = contents_of(rows@);
    let mut index: usize = 0;
    while index < rows.len()
        invariant
            index <= rows.len(),
            lines == contents_of(rows@),
            joined@ == join_lines(lines.take(index as int)),
        decreases rows.len() - index,
    {
        proof {
            let before = lines.take(index as int);
            let after = lines.take(index + 1);
            assert(after.drop_last() =~= before);
            assert(after.last() == rows@[index as int].content@);
            reveal_strlit("\n");
            assert("\n"@ =~= seq!['\n']);
            if index == 0 {
                assert(before =~= Seq::<Seq<char>>::empty());
                assert(after[0] == rows@[0].content@);
            }
        }
        if index > 0 {
            joined.append("\n");
        }
        joined.append(rows[index].content.as_str());
        index += 1;
        assert(joined@ =~= join_lines(lines.take(index as int)));
    }
    assert(lines.take(index as int) =~= lines);
    joined
}

/// Builds the prompt for a question and the rows retrieved for it: the rows'
/// contents, joined by newlines in the order given, are the context.
pub fn generate_prompt_msgs(query: String, context_tables: Vec<TableContent>) -> (messages: Vec<
    (String, String),
>)
    ensures
        messages.deep_view() == prompt_messages(
            join_lines(contents_of(context_tables@)),
            query@,
        ),
{
    let context = join_contents(&context_tables);
    create_prompt(context, query)
}

/// Every line stands in the joined text at its start, and the lines follow
/// one another in their order, a newline apart.
pub proof fn lemma_join_keeps_lines(lines: Seq<Seq<char>>, index: int)
    requires
        0 <= index < lines.len(),
    ensures
        occurs_at(join_lines(lines), lines[index], line_start(lines, index)),
        index + 1 < lines.len() ==> line_start(lines, index + 1) == line_start(lines, index)
            + lines[index].len() + 1,
        line_start(lines, lines.len() as int) == join_lines(lines).len() + 1,
    decreases lines.len(),
{
    lemma_line_start_prefix(lines, lines.len() as int);
    if lines.len() == 1 {
        assert(join_lines(lines).subrange(0, lines[0].len() as int) =~= lines[0]);
        assert(line_start(lines, 1) == line_start(lines, 0) + lines[0].len() + 1);
    } else {
        let front = lines.drop_last();
        let last = lines.len() - 1;
        lemma_join_keeps_lines(front, if index < last { index } else { 0 });
        lemma_line_start_prefix(lines, last);
        assert(line_start(lines, last) == line_start(front, last));
        assert(line_start(lines, last + 1) == line_start(lines, last) + lines[last].len() + 1);
        if index < last {
            lemma_line_start_prefix(lines, index);
            assert(front[index] == lines[index]);
            assert(join_lines(lines).subrange(
                line_start(lines, index),
                line_start(lines, index) + lines[index].len(),
            ) =~= join_lines(front).subrange(
                line_start(front, index),
                line_start(front, index) + front[index].len(),
            ));
        } else {
            assert(join_lines(lines).subrange(
                line_start(lines, index),
                line_start(lines, index) + lines[index].len(),
            ) =~= lines[index]);
        }
    }
}

/// The start of a line depends only on the lines before it.
proof fn lemma_line_start_prefix(lines: Seq<Seq<char>>, index: int)
    requires
        0 <= index <= lines.len(),
    ensures
        index < lines.len() ==> line_start(lines, index) == line_start(lines.drop_last(), index),
        0 <= line_start(lines, index),
    decreases index,
{
    if index > 0 {
        lemma_line_start_prefix(lines, index - 1);
    }
}

/// A prompt has exactly two messages, the first with the role `system`; the
/// second holds the joined context right after the opening words and the
/// question right after the bridge.
pub proof fn lemma_prompt_holds_context_and_query(contexts: Seq<Seq<char>>, query: Seq<char>)
    ensures
        ({
            let context = join_lines(contexts);
            let messages = prompt_messages(context, query);
            &&& messages.len() == 2
            &&& messages[0].0 == SYSTEM_ROLE@
            &&& messages[1].0 == USER_ROLE@
            &&& occurs_at(messages[1].1, context, USER_OPENING@.len() as int)
            &&& occurs_at(
                messages[1].1,
                query,
                (USER_OPENING@.len() + context.len() + USER_BRIDGE@.len()) as int,
            )
        }),
{
    let context = join_lines(contexts);
    let content = user_message(context, query);
    let at_context = USER_OPENING@.len() as int;
    let at_query = (USER_OPENING@.len() + context.len() + USER_BRIDGE@.len()) as int;
    assert(content.subrange(at_context, at_context + context.len()) =~= context);
    assert(content.subrange(at_query, at_query + query.len()) =~= query);
}

} // verus!
