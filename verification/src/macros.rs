//! Errors of procedural macros.

use vstd::prelude::*;

verus! {

/// An error of a parser, with one or more messages.
#[verifier::external_type_specification]
#[verifier::external_body]
pub struct ExSynError(syn::Error);

/// A sequence of tokens.
#[verifier::external_type_specification]
#[verifier::external_body]
pub struct ExTokenStream(proc_macro2::TokenStream);

/// The messages that a `syn::Error` holds, in order.
pub uninterp spec fn messages(error: syn::Error) -> Seq<Seq<char>>;

/// The texts of the tokens that a `proc_macro2::TokenStream` holds, in order.
pub uninterp spec fn token_texts(tokens: proc_macro2::TokenStream) -> Seq<Seq<char>>;

/// The text of the last token that `syn::Error::to_compile_error` makes of one message: a group in
/// braces with the message as a string literal.
pub uninterp spec fn message_group(message: Seq<char>) -> Seq<char>;

/// The texts of the tokens for one message: an invocation of `compile_error!`, with the group of the
/// message at its end.
pub open spec fn message_tokens(message: Seq<char>) -> Seq<Seq<char>> {
    seq![
        ":"@,
        ":"@,
        "core"@,
        ":"@,
        ":"@,
        "compile_error"@,
        "!"@,
        message_group(message),
    ]
}

/// The texts of the tokens for messages: those of one message after the other.
pub open spec fn rendered(messages: Seq<Seq<char>>) -> Seq<Seq<char>>
    decreases messages.len(),
{
    if messages.len() == 0 {
        Seq::empty()
    } else {
        rendered(messages.drop_last()) + message_tokens(messages.last())
    }
}

/// Calls `syn::Error::combine`, which appends the messages of the other error to its own.
#[verifier::external_body]
fn append_messages(error: &mut syn::Error, another: syn::Error)
    ensures
        messages(*final(error)) == messages(*old(error)) + messages(another),
{
    error.combine(another);
}

/// Calls `syn::Error::to_compile_error`, which makes tokens of each message, one after the other:
/// eight of them, an invocation of `compile_error!`, of which the last is the group with the message.
#[verifier::external_body]
fn render(error: &syn::Error) -> (r: proc_macro2::TokenStream)
    ensures
        token_texts(r) == rendered(messages(*error)),
        token_texts(r).len() == 8 * messages(*error).len(),
        messages(*error).len() == 1 ==> token_texts(r)[7] == message_group(messages(*error)[0]),
{
    error.to_compile_error()
}

/// The tokens of an expansion, or those of the error that stopped it.
pub fn ok_or_compile_error(
    res: core::result::Result<proc_macro2::TokenStream, syn::Error>,
) -> (r: proc_macro2::TokenStream)
    ensures
        match res {
            Ok(stream) => r == stream,
            Err(error) => token_texts(r) == rendered(messages(error)) && token_texts(r).len() == 8
                * messages(error).len(),
        },
{
    match res {
        Ok(stream) => stream,
        Err(error) => render(&error),
    }
}

/// Errors of an expansion, none at first.
pub struct MacroError(Option<syn::Error>);

impl From<syn::Error> for MacroError {
    fn from(value: syn::Error) -> (r: Self) {
        MacroError(Some(value))
    }
}

impl vstd::std_specs::convert::FromSpecImpl<syn::Error> for MacroError {
    open spec fn obeys_from_spec() -> bool {
        true
    }

    closed spec fn from_spec(value: syn::Error) -> MacroError {
        MacroError(Some(value))
    }
}

impl MacroError {
    /// There is an error.
    pub closed spec fn is_some(self) -> bool {
        self.0 is Some
    }

    /// All messages.
    pub closed spec fn all_messages(self) -> Seq<Seq<char>> {
        match self.0 {
            Some(error) => messages(error),
            None => Seq::empty(),
        }
    }

    /// No error.
    pub fn none() -> (r: Self)
        ensures
            !r.is_some(),
            r.all_messages() == Seq::<Seq<char>>::empty(),
    {
        MacroError(None)
    }

    /// Adds the messages of another error.
    pub fn combine(&mut self, error: MacroError)
        ensures
            final(self).is_some() == (old(self).is_some() || error.is_some()),
            final(self).all_messages() == old(self).all_messages() + error.all_messages(),
    {
        let ghost before = self.all_messages();
        let ghost added = error.all_messages();
        match self.0.take() {
            Some(mut this) => {
                if let Some(error) = error.0 {
                    append_messages(&mut this, error);
                }
                self.0 = Some(this);
            },
            None => {
                self.0 = error.0;
            },
        }
        assert(self.all_messages() =~= before + added);
    }

    /// The tokens of all messages, where there is an error.
    pub fn tokens(&self) -> (r: Option<proc_macro2::TokenStream>)
        ensures
            match r {
                Some(tokens) => {
                    &&& self.is_some()
                    &&& token_texts(tokens) == rendered(self.all_messages())
                    &&& token_texts(tokens).len() == 8 * self.all_messages().len()
                },
                None => !self.is_some(),
            },
    {
        match &self.0 {
            Some(error) => Some(render(error)),
            None => None,
        }
    }
}

/// An error made of a `syn::Error` has its messages.
pub proof fn lemma_from(value: syn::Error)
    ensures
        <MacroError as vstd::std_specs::convert::FromSpec<syn::Error>>::from_spec(value).is_some(),
        <MacroError as vstd::std_specs::convert::FromSpec<syn::Error>>::from_spec(
            value,
        ).all_messages() == messages(value),
{
}

/// The tokens of errors that were combined are those of the first followed by those of the second.
pub proof fn lemma_combined_tokens(first: Seq<Seq<char>>, second: Seq<Seq<char>>)
    ensures
        rendered(first + second) == rendered(first) + rendered(second),
    decreases second.len(),
{
    if second.len() == 0 {
        assert(first + second =~= first);
        assert(rendered(first) + rendered(second) =~= rendered(first));
    } else {
        let all = first + second;
        assert(all.drop_last() =~= first + second.drop_last());
        assert(all.last() == second.last());
        lemma_combined_tokens(first, second.drop_last());
        assert(rendered(first) + (rendered(second.drop_last()) + message_tokens(second.last()))
            =~= rendered(first) + rendered(second.drop_last()) + message_tokens(second.last()));
    }
}

} // verus!
