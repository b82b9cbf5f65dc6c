//! Helpers for the generator of binary serialization code.

use vstd::prelude::*;
use vstd::string::{StrSliceExecFns, StringExecFns};
use crate::text::{decimal, decimal_text, find_char, same_text};

verus! {

/// The mark of a failure that has been reported where it arose.
pub struct Error;

/// The place of the first `<` in a type's name, where it has one.
pub open spec fn first_angle(s: Seq<char>) -> Option<int> {
    if exists|i: int| 0 <= i < s.len() && s[i] == '<' && forall|j: int| 0 <= j < i ==> s[j] != '<' {
        Some(
            choose|i: int|
                0 <= i < s.len() && s[i] == '<' && forall|j: int| 0 <= j < i ==> s[j] != '<',
        )
    } else {
        None
    }
}

/// A type's name as a path can hold it: `::` goes before its first `<`.
pub open spec fn qualified(s: Seq<char>) -> Seq<char> {
    match first_angle(s) {
        Some(pos) => s.subrange(0, pos) + seq![':', ':'] + s.subrange(pos, s.len() as int),
        None => s,
    }
}

/// Writes a type's name so that a path can hold it: `Vec<u8>` becomes
/// `Vec::<u8>`, and a name without `<` stays as it is.
pub fn replace_qualified(s: &str) -> (r: String)
    ensures
        r@ == qualified(s@),
{
    match find_char(s, '<') {
        Some(pos) => {
            let n = s.unicode_len();
            let mut source = String::from_str(s.substring_char(0, pos));
            source.append("::");
            source.append(s.substring_char(pos, n));
            proof {
                reveal_strlit("::");
                assert("::"@ =~= seq![':', ':']);
                let p = pos as int;
                assert(0 <= p < s@.len() && s@[p] == '<' && forall|j: int|
                    0 <= j < p ==> s@[j] != '<');
                let chosen = first_angle(s@).unwrap();
                if chosen < p {
                    assert(s@[chosen] != '<');
                } else if p < chosen {
                    assert(s@[p] != '<');
                }
            }
            source
        },
        None => {
            proof {
                assert(first_angle(s@).is_none());
            }
            String::from_str(s)
        },
    }
}

/// A pair of brackets.
#[derive(Debug, Clone, Copy, PartialEq, Eq, Structural)]
pub enum Delim {
    /// Round brackets.
    Paren,
    /// Square brackets.
    Bracket,
    /// Curly brackets.
    Brace,
}

/// One token of the code that is generated.
#[derive(Debug, Clone, PartialEq, Eq)]
pub enum Token {
    /// A name.
    Ident(String),
    /// An opening bracket.
    OpenDelim(Delim),
    /// A closing bracket.
    CloseDelim(Delim),
    /// `:`
    Colon,
    /// `,`
    Comma,
    /// `..`
    DotDot,
    /// `::`
    ModSep,
    /// `&`
    And,
    /// `=`
    Eq,
}

/// One token, as plain values.
pub enum TokenView {
    /// A name.
    Ident(Seq<char>),
    /// An opening bracket.
    OpenDelim(Delim),
    /// A closing bracket.
    CloseDelim(Delim),
    /// `:`
    Colon,
    /// `,`
    Comma,
    /// `..`
    DotDot,
    /// `::`
    ModSep,
    /// `&`
    And,
    /// `=`
    Eq,
}

impl View for Token {
    type V = TokenView;

    open spec fn view(&self) -> TokenView {
        match self {
            Token::Ident(name) => TokenView::Ident(name@),
            Token::OpenDelim(d) => TokenView::OpenDelim(*d),
            Token::CloseDelim(d) => TokenView::CloseDelim(*d),
            Token::Colon => TokenView::Colon,
            Token::Comma => TokenView::Comma,
            Token::DotDot => TokenView::DotDot,
            Token::ModSep => TokenView::ModSep,
            Token::And => TokenView::And,
            Token::Eq => TokenView::Eq,
        }
    }
}

/// The tokens of a list, as plain values.
pub open spec fn token_views(tokens: Seq<Token>) -> Seq<TokenView> {
    Seq::new(tokens.len(), |i: int| tokens[i]@)
}

/// A field of a struct or of an enum's variant.
pub struct Field {
    /// The field's name, where it has one.
    pub ident: Option<String>,
    /// The field's type as it is written.
    pub ty: String,
    /// The field's type without the reference, where it is one.
    pub stripped: String,
    /// Whether the field's type is a reference.
    pub has_ptr: bool,
}

impl Field {
    /// The field's name; none where it has none.
    pub open spec fn name(&self) -> Option<Seq<char>> {
        match self.ident {
            Some(name) => Some(name@),
            None => None,
        }
    }
}

/// `map[index]`: where the field at a place begins in the buffer.
pub open spec fn offset_tokens(index: nat) -> Seq<TokenView> {
    seq![
        TokenView::Ident("map"@),
        TokenView::OpenDelim(Delim::Bracket),
        TokenView::Ident(decimal_text(index)),
        TokenView::CloseDelim(Delim::Bracket),
    ]
}

/// `buffer[map[index]..map[index + 1]]`: the bytes of the field at a place;
/// those of the last field run to the end of the buffer.
pub open spec fn slice_tokens(index: nat, count: nat) -> Seq<TokenView> {
    let end: Seq<TokenView> = if index + 1 != count {
        offset_tokens(index + 1)
    } else {
        Seq::empty()
    };
    seq![TokenView::Ident("buffer"@), TokenView::OpenDelim(Delim::Bracket)] + offset_tokens(index)
        + seq![TokenView::DotDot] + end + seq![TokenView::CloseDelim(Delim::Bracket)]
}

/// The expression that reads the field at a place from the buffer, with the
/// comma after it: a byte is taken as it is, a byte string as a slice, and
/// anything else is read by its type from its slice.
pub open spec fn value_tokens(ty: Seq<char>, index: nat, count: nat) -> Seq<TokenView> {
    if ty == "u8"@ {
        seq![TokenView::Ident("buffer"@), TokenView::OpenDelim(Delim::Bracket)] + offset_tokens(
            index,
        ) + seq![TokenView::CloseDelim(Delim::Bracket), TokenView::Comma]
    } else if ty == "[u8]"@ {
        slice_tokens(index, count) + seq![TokenView::Comma]
    } else {
        seq![
            TokenView::Ident("try!"@),
            TokenView::OpenDelim(Delim::Paren),
            TokenView::Ident(qualified(ty)),
            TokenView::ModSep,
            TokenView::Ident("from_bytes"@),
            TokenView::OpenDelim(Delim::Paren),
            TokenView::And,
        ] + slice_tokens(index, count) + seq![
            TokenView::Comma,
            TokenView::Ident("length_stack"@),
            TokenView::CloseDelim(Delim::Paren),
            TokenView::CloseDelim(Delim::Paren),
            TokenView::Comma,
        ]
    }
}

/// What one field contributes to a literal: its name and a colon, where it
/// has a name, and the expression that reads it.
pub open spec fn field_tokens(field: Field, index: nat, count: nat) -> Seq<TokenView> {
    let label: Seq<TokenView> = match field.name() {
        Some(name) => seq![TokenView::Ident(name), TokenView::Colon],
        None => Seq::empty(),
    };
    label + value_tokens(field.ty@, index, count)
}

/// What the first `upto` fields contribute to a literal.
pub open spec fn fields_tokens(fields: Seq<Field>, upto: nat) -> Seq<TokenView>
    decreases upto,
{
    if upto == 0 || upto > fields.len() {
        Seq::empty()
    } else {
        fields_tokens(fields, (upto - 1) as nat) + field_tokens(
            fields[upto - 1],
            (upto - 1) as nat,
            fields.len(),
        )
    }
}

/// Whether one of the fields has a name.
pub open spec fn any_named(fields: Seq<Field>) -> bool {
    exists|i: int| 0 <= i < fields.len() && (#[trigger] fields[i]).ident.is_some()
}

/// The literal that reads a variant's fields from the buffer: the variant's
/// name, then the fields in curly brackets where they have names and in round
/// brackets where they have none.
pub open spec fn literal_tokens(fields: Seq<Field>, variant: Seq<char>) -> Seq<TokenView> {
    let delim = if any_named(fields) {
        Delim::Brace
    } else {
        Delim::Paren
    };
    seq![TokenView::Ident(variant), TokenView::OpenDelim(delim)] + fields_tokens(
        fields,
        fields.len(),
    ) + seq![TokenView::CloseDelim(delim)]
}

/// The statement that reads a struct's fields from the buffer into `result`.
pub open spec fn statement_tokens(fields: Seq<Field>, ty: Seq<char>) -> Seq<TokenView> {
    seq![
        TokenView::Ident("let"@),
        TokenView::Ident("result"@),
        TokenView::Eq,
        TokenView::Ident(ty),
        TokenView::OpenDelim(Delim::Brace),
    ] + fields_tokens(fields, fields.len()) + seq![TokenView::CloseDelim(Delim::Brace)]
}

/// The token of a name.
fn ident(name: &str) -> (r: Token)
    ensures
        r@ == TokenView::Ident(name@),
{
    Token::Ident(String::from_str(name))
}

/// Adds a token.
fn push_token(out: &mut Vec<Token>, token: Token)
    ensures
        token_views(final(out)@) == token_views(old(out)@).push(token@),
{
    out.push(token);
    proof {
        assert(token_views(out@) =~= token_views(old(out)@).push(token@));
    }
}

/// Adds `map[index]`.
fn push_offset(out: &mut Vec<Token>, index: usize)
    ensures
        token_views(final(out)@) == token_views(old(out)@) + offset_tokens(index as nat),
{
    push_token(out, ident("map"));
    push_token(out, Token::OpenDelim(Delim::Bracket));
    push_token(out, Token::Ident(decimal(index as u64)));
    push_token(out, Token::CloseDelim(Delim::Bracket));
    proof {
        assert(token_views(out@) =~= token_views(old(out)@) + offset_tokens(index as nat));
    }
}

/// Adds the slice of the buffer that holds the field at a place.
fn push_slice(out: &mut Vec<Token>, index: usize, count: usize)
    requires
        index < count,
    ensures
        token_views(final(out)@) == token_views(old(out)@) + slice_tokens(
            index as nat,
            count as nat,
        ),
{
    push_token(out, ident("buffer"));
    push_token(out, Token::OpenDelim(Delim::Bracket));
    push_offset(out, index);
    push_token(out, Token::DotDot);
    if index + 1 != count {
        push_offset(out, index + 1);
    }
    push_token(out, Token::CloseDelim(Delim::Bracket));
    proof {
        assert(token_views(out@) =~= token_views(old(out)@) + slice_tokens(
            index as nat,
            count as nat,
        ));
    }
}

/// Adds the expression that reads the field at a place.
fn push_value(out: &mut Vec<Token>, ty: &str, index: usize, count: usize)
    requires
        index < count,
    ensures
        token_views(final(out)@) == token_views(old(out)@) + value_tokens(
            ty@,
            index as nat,
            count as nat,
        ),
{
    if same_text(ty, "u8") {
        push_token(out, ident("buffer"));
        push_token(out, Token::OpenDelim(Delim::Bracket));
        push_offset(out, index);
        push_token(out, Token::CloseDelim(Delim::Bracket));
        push_token(out, Token::Comma);
        proof {
            assert(token_views(out@) =~= token_views(old(out)@) + value_tokens(
                ty@,
                index as nat,
                count as nat,
            ));
        }
    } else if same_text(ty, "[u8]") {
        push_slice(out, index, count);
        push_token(out, Token::Comma);
        proof {
            assert(token_views(out@) =~= token_views(old(out)@) + value_tokens(
                ty@,
                index as nat,
                count as nat,
            ));
        }
    } else {
        push_token(out, ident("try!"));
        push_token(out, Token::OpenDelim(Delim::Paren));
        push_token(out, Token::Ident(replace_qualified(ty)));
        push_token(out, Token::ModSep);
        push_token(out, ident("from_bytes"));
        push_token(out, Token::OpenDelim(Delim::Paren));
        push_token(out, Token::And);
        push_slice(out, index, count);
        push_token(out, Token::Comma);
        push_token(out, ident("length_stack"));
        push_token(out, Token::CloseDelim(Delim::Paren));
        push_token(out, Token::CloseDelim(Delim::Paren));
        push_token(out, Token::Comma);
        proof {
            assert(token_views(out@) =~= token_views(old(out)@) + value_tokens(
                ty@,
                index as nat,
                count as nat,
            ));
        }
    }
}

/// Adds what the fields contribute to a literal.
fn push_fields(out: &mut Vec<Token>, fields: &Vec<Field>)
    ensures
        token_views(final(out)@) == token_views(old(out)@) + fields_tokens(
            fields@,
            fields@.len(),
        ),
{
    let count = fields.len();
    let mut i: usize = 0;
    proof {
        assert(token_views(out@) =~= token_views(old(out)@) + fields_tokens(fields@, 0));
    }
    while i < count
        invariant
            i <= count,
            count == fields@.len(),
            token_views(out@) == token_views(old(out)@) + fields_tokens(fields@, i as nat),
        decreases count - i,
    {
        let ghost before = token_views(out@);
        match &fields[i].ident {
            Some(name) => {
                push_token(out, Token::Ident(String::from_str(name.as_str())));
                push_token(out, Token::Colon);
            },
            None => {},
        }
        push_value(out, fields[i].ty.as_str(), i, count);
        proof {
            assert(token_views(out@) =~= before + field_tokens(
                fields@[i as int],
                i as nat,
                count as nat,
            ));
            assert(token_views(out@) =~= token_views(old(out)@) + fields_tokens(
                fields@,
                (i + 1) as nat,
            ));
        }
        i = i + 1;
    }
}

/// The tokens of the literal that reads a variant's fields from the buffer.
pub fn fields_sequence(fields: &Vec<Field>, variant_ident: &str) -> (r: Vec<Token>)
    ensures
        token_views(r@) == literal_tokens(fields@, variant_ident@),
{
    let mut named_members = false;
    let mut i: usize = 0;
    while i < fields.len()
        invariant
            i <= fields@.len(),
            named_members == exists|j: int|
                0 <= j < i && (#[trigger] fields@[j]).ident.is_some(),
        decreases fields@.len() - i,
    {
        if fields[i].ident.is_some() {
            named_members = true;
        }
        i = i + 1;
    }
    let delim = if named_members {
        Delim::Brace
    } else {
        Delim::Paren
    };
    let mut tt: Vec<Token> = Vec::new();
    push_token(&mut tt, ident(variant_ident));
    push_token(&mut tt, Token::OpenDelim(delim));
    push_fields(&mut tt, fields);
    push_token(&mut tt, Token::CloseDelim(delim));
    proof {
        assert(token_views(tt@) =~= literal_tokens(fields@, variant_ident@));
    }
    tt
}

/// The tokens of the statement that reads a struct's fields, which all have
/// names, from the buffer into `result`.
pub fn named_fields_sequence(ty: &str, fields: &Vec<Field>) -> (r: Vec<Token>)
    requires
        forall|i: int| 0 <= i < fields@.len() ==> (#[trigger] fields@[i]).ident.is_some(),
    ensures
        token_views(r@) == statement_tokens(fields@, ty@),
{
    let mut tt: Vec<Token> = Vec::new();
    push_token(&mut tt, ident("let"));
    push_token(&mut tt, ident("result"));
    push_token(&mut tt, Token::Eq);
    push_token(&mut tt, ident(ty));
    push_token(&mut tt, Token::OpenDelim(Delim::Brace));
    push_fields(&mut tt, fields);
    push_token(&mut tt, Token::CloseDelim(Delim::Brace));
    proof {
        assert(token_views(tt@) =~= statement_tokens(fields@, ty@));
    }
    tt
}

/// A token as it is written.
pub open spec fn token_text(token: TokenView) -> Seq<char> {
    match token {
        TokenView::Ident(name) => name,
        TokenView::OpenDelim(Delim::Paren) => "("@,
        TokenView::OpenDelim(Delim::Bracket) => "["@,
        TokenView::OpenDelim(Delim::Brace) => "{"@,
        TokenView::CloseDelim(Delim::Paren) => ")"@,
        TokenView::CloseDelim(Delim::Bracket) => "]"@,
        TokenView::CloseDelim(Delim::Brace) => "}"@,
        TokenView::Colon => ":"@,
        TokenView::Comma => ","@,
        TokenView::DotDot => ".."@,
        TokenView::ModSep => "::"@,
        TokenView::And => "&"@,
        TokenView::Eq => "="@,
    }
}

/// The first `upto` tokens as they are written, each followed by a blank.
pub open spec fn tokens_text(tokens: Seq<TokenView>, upto: nat) -> Seq<char>
    decreases upto,
{
    if upto == 0 || upto > tokens.len() {
        Seq::empty()
    } else {
        tokens_text(tokens, (upto - 1) as nat) + token_text(tokens[upto - 1]) + " "@
    }
}

/// A token as it is written.
fn token_str(token: &Token) -> (r: &str)
    ensures
        r@ == token_text(token@),
{
    match token {
        Token::Ident(name) => name.as_str(),
        Token::OpenDelim(Delim::Paren) => "(",
        Token::OpenDelim(Delim::Bracket) => "[",
        Token::OpenDelim(Delim::Brace) => "{",
        Token::CloseDelim(Delim::Paren) => ")",
        Token::CloseDelim(Delim::Bracket) => "]",
        Token::CloseDelim(Delim::Brace) => "}",
        Token::Colon => ":",
        Token::Comma => ",",
        Token::DotDot => "..",
        Token::ModSep => "::",
        Token::And => "&",
        Token::Eq => "=",
    }
}

/// Writes tokens out, each followed by a blank.
pub fn render(tokens: &Vec<Token>) -> (r: String)
    ensures
        r@ == tokens_text(token_views(tokens@), tokens@.len()),
{
    let mut out = String::from_str("");
    let mut i: usize = 0;
    proof {
        reveal_strlit("");
        assert(out@ =~= tokens_text(token_views(tokens@), 0));
    }
    while i < tokens.len()
        invariant
            i <= tokens@.len(),
            out@ == tokens_text(token_views(tokens@), i as nat),
        decreases tokens@.len() - i,
    {
        out.append(token_str(&tokens[i]));
        out.append(" ");
        i = i + 1;
    }
    out
}

/// How a field is reached: as a field of `holder`, where there is one, and
/// else under the name that the pattern of its variant gives it by its place.
pub open spec fn member_text(field: Field, index: nat, holder: Option<Seq<char>>) -> Seq<char> {
    match holder {
        Some(x) => x + "."@ + field.name().unwrap(),
        None => "__field"@ + decimal_text(index),
    }
}

/// Whether a type is a single byte.
pub open spec fn is_byte(ty: Seq<char>) -> bool {
    ty == "u8"@
}

/// Whether a type is a string of bytes.
pub open spec fn is_bytes(ty: Seq<char>) -> bool {
    ty == "[u8]"@
}

/// The expression for the size of a type that is neither a byte nor a
/// string of bytes: that of the type, where it is fixed, and else what
/// `varying` says.
pub open spec fn sized_text(ty: Seq<char>, varying: Seq<char>) -> Seq<char> {
    "match "@ + qualified(ty) + "::len_params() { 0 => mem::size_of::<"@ + ty + ">(), _ => "@
        + varying + ", }"@
}

/// The expression for the size of a field.
pub open spec fn size_text(field: Field, index: nat, holder: Option<Seq<char>>) -> Seq<char> {
    let member = member_text(field, index, holder);
    if is_byte(field.stripped@) {
        "1"@
    } else if is_bytes(field.stripped@) {
        member + ".len()"@
    } else {
        sized_text(field.stripped@, member + ".size()"@)
    }
}

/// The expression for the size of the first `upto` fields, of which there is
/// at least one.
pub open spec fn sizes_text(fields: Seq<Field>, upto: nat, holder: Option<Seq<char>>) -> Seq<char>
    decreases upto,
{
    if upto <= 1 || upto > fields.len() {
        "0usize + "@ + size_text(fields[0], 0, holder)
    } else {
        sizes_text(fields, (upto - 1) as nat, holder) + " + "@ + size_text(
            fields[upto - 1],
            (upto - 1) as nat,
            holder,
        )
    }
}

/// The statements that write one field to the buffer and move on.
pub open spec fn write_text(field: Field, index: nat, holder: Option<Seq<char>>) -> Seq<char> {
    let member = member_text(field, index, holder);
    let body = if is_byte(field.stripped@) {
        "let next_line = offset + 1; buffer[offset] = "@ + member + "; "@
    } else if is_bytes(field.stripped@) {
        "let size = "@ + member
            + ".len(); let next_line = offset + size; length_stack.push_back(size); buffer[offset..next_line].clone_from_slice("@
            + member + "); "@
    } else {
        "let next_line = offset + "@ + sized_text(
            field.stripped@,
            "{ let size = "@ + member + ".size(); length_stack.push_back(size); size }"@,
        ) + "; if let Err(e) = "@ + member
            + ".to_bytes(&mut buffer[offset..next_line], length_stack) { return Err(e) }; "@
    };
    body + "offset = next_line; "@
}

/// The statements that write the first `upto` fields.
pub open spec fn writes_text(fields: Seq<Field>, upto: nat, holder: Option<Seq<char>>) -> Seq<char>
    decreases upto,
{
    if upto == 0 || upto > fields.len() {
        "let mut offset = 0usize; "@
    } else {
        writes_text(fields, (upto - 1) as nat, holder) + write_text(
            fields[upto - 1],
            (upto - 1) as nat,
            holder,
        )
    }
}

/// The statements that note where one field begins in the buffer.
pub open spec fn map_text(field: Field, index: nat) -> Seq<char> {
    "map["@ + decimal_text(index) + "] = total; "@ + if is_byte(field.stripped@) {
        "total += 1; "@
    } else if is_bytes(field.stripped@) {
        "let size = length_stack.pop_front().unwrap(); total += size; "@
    } else {
        "let size = "@ + sized_text(field.stripped@, "length_stack.pop_front().unwrap()"@)
            + "; total += size; "@
    }
}

/// The statements that note where each of the first `upto` fields begins.
pub open spec fn maps_text(fields: Seq<Field>, upto: nat) -> Seq<char>
    decreases upto,
{
    if upto == 0 || upto > fields.len() {
        "let mut map = vec![0usize; "@ + decimal_text(fields.len())
            + "]; let mut total = 0usize; "@
    } else {
        maps_text(fields, (upto - 1) as nat) + map_text(fields[upto - 1], (upto - 1) as nat)
    }
}

/// Whether one of the fields is a reference.
pub open spec fn any_ptr(fields: Seq<Field>) -> bool {
    exists|i: int| 0 <= i < fields.len() && (#[trigger] fields[i]).has_ptr
}

/// Whether all fields have names.
pub open spec fn all_named(fields: Seq<Field>) -> bool {
    forall|i: int| 0 <= i < fields.len() ==> (#[trigger] fields[i]).ident.is_some()
}

/// The expression that reads the fields from the buffer: nothing can be read
/// into a reference; fields with a holder are read into a struct of the type
/// given, the others into the variant given, or into `Self`.
pub open spec fn read_text(
    ty: Seq<char>,
    fields: Seq<Field>,
    holder: Option<Seq<char>>,
    instance: Option<Seq<char>>,
) -> Seq<char> {
    if any_ptr(fields) {
        "Err(::ipc::binary::BinaryConvertError)"@
    } else if holder.is_some() {
        "{ "@ + maps_text(fields, fields.len()) + tokens_text(
            statement_tokens(fields, ty),
            statement_tokens(fields, ty).len(),
        ) + "; Ok(result) }"@
    } else {
        let variant = match instance {
            Some(name) => name,
            None => "Self"@,
        };
        "{ "@ + maps_text(fields, fields.len()) + "Ok("@ + tokens_text(
            literal_tokens(fields, variant),
            literal_tokens(fields, variant).len(),
        ) + ") }"@
    }
}

/// The three expressions of a serialization: how large a value is, how it
/// is written, and how it is read.
pub struct BinaryExpressions {
    /// How large a value is.
    pub size: String,
    /// How a value is written to the buffer.
    pub write: String,
    /// How a value is read from the buffer.
    pub read: String,
}

/// A string of its own with the characters given.
fn text(s: &str) -> (r: String)
    ensures
        r@ == s@,
{
    String::from_str(s)
}

/// Adds how a field is reached.
fn push_member(out: &mut String, field: &Field, index: usize, holder: Option<&str>)
    requires
        holder.is_some() ==> field.ident.is_some(),
    ensures
        final(out)@ == old(out)@ + member_text(
            *field,
            index as nat,
            match holder {
                Some(x) => Some(x@),
                None => None,
            },
        ),
{
    match holder {
        Some(x) => {
            out.append(x);
            out.append(".");
            match &field.ident {
                Some(name) => {
                    out.append(name.as_str());
                },
                None => {},
            }
            proof {
                assert(out@ =~= old(out)@ + (x@ + "."@ + field.name().unwrap()));
            }
        },
        None => {
            out.append("__field");
            let place = decimal(index as u64);
            out.append(place.as_str());
            proof {
                assert(out@ =~= old(out)@ + ("__field"@ + decimal_text(index as nat)));
            }
        },
    }
}

/// Adds the expression for the size of a type that is neither a byte nor a
/// string of bytes.
fn push_sized(out: &mut String, ty: &str, varying: &str)
    ensures
        final(out)@ == old(out)@ + sized_text(ty@, varying@),
{
    out.append("match ");
    let path = replace_qualified(ty);
    out.append(path.as_str());
    out.append("::len_params() { 0 => mem::size_of::<");
    out.append(ty);
    out.append(">(), _ => ");
    out.append(varying);
    out.append(", }");
    proof {
        assert(out@ =~= old(out)@ + sized_text(ty@, varying@));
    }
}

/// The spec-level holder of an optional name.
pub open spec fn holder_view(holder: Option<&str>) -> Option<Seq<char>> {
    match holder {
        Some(x) => Some(x@),
        None => None,
    }
}

/// How a field is reached.
fn member_string(field: &Field, index: usize, holder: Option<&str>) -> (r: String)
    requires
        holder.is_some() ==> field.ident.is_some(),
    ensures
        r@ == member_text(*field, index as nat, holder_view(holder)),
{
    let mut member = text("");
    proof {
        reveal_strlit("");
    }
    push_member(&mut member, field, index, holder);
    proof {
        assert(member@ =~= member_text(*field, index as nat, holder_view(holder)));
    }
    member
}

/// Adds the expression for the size of a field.
fn push_size(out: &mut String, field: &Field, index: usize, holder: Option<&str>)
    requires
        holder.is_some() ==> field.ident.is_some(),
    ensures
        final(out)@ == old(out)@ + size_text(*field, index as nat, holder_view(holder)),
{
    if same_text(field.stripped.as_str(), "u8") {
        out.append("1");
    } else if same_text(field.stripped.as_str(), "[u8]") {
        push_member(out, field, index, holder);
        out.append(".len()");
        proof {
            assert(out@ =~= old(out)@ + size_text(*field, index as nat, holder_view(holder)));
        }
    } else {
        let mut varying = member_string(field, index, holder);
        varying.append(".size()");
        push_sized(out, field.stripped.as_str(), varying.as_str());
    }
}

/// Adds the statements that write one field.
fn push_write(out: &mut String, field: &Field, index: usize, holder: Option<&str>)
    requires
        holder.is_some() ==> field.ident.is_some(),
    ensures
        final(out)@ == old(out)@ + write_text(*field, index as nat, holder_view(holder)),
{
    let member = member_string(field, index, holder);
    if same_text(field.stripped.as_str(), "u8") {
        out.append("let next_line = offset + 1; buffer[offset] = ");
        out.append(member.as_str());
        out.append("; ");
    } else if same_text(field.stripped.as_str(), "[u8]") {
        out.append("let size = ");
        out.append(member.as_str());
        out.append(
            ".len(); let next_line = offset + size; length_stack.push_back(size); buffer[offset..next_line].clone_from_slice(",
        );
        out.append(member.as_str());
        out.append("); ");
    } else {
        out.append("let next_line = offset + ");
        let mut varying = text("{ let size = ");
        varying.append(member.as_str());
        varying.append(".size(); length_stack.push_back(size); size }");
        push_sized(out, field.stripped.as_str(), varying.as_str());
        out.append("; if let Err(e) = ");
        out.append(member.as_str());
        out.append(".to_bytes(&mut buffer[offset..next_line], length_stack) { return Err(e) }; ");
    }
    out.append("offset = next_line; ");
    proof {
        assert(out@ =~= old(out)@ + write_text(*field, index as nat, holder_view(holder)));
    }
}

/// Adds the statements that note where one field begins.
fn push_map(out: &mut String, field: &Field, index: usize)
    ensures
        final(out)@ == old(out)@ + map_text(*field, index as nat),
{
    out.append("map[");
    let place = decimal(index as u64);
    out.append(place.as_str());
    out.append("] = total; ");
    if same_text(field.stripped.as_str(), "u8") {
        out.append("total += 1; ");
    } else if same_text(field.stripped.as_str(), "[u8]") {
        out.append("let size = length_stack.pop_front().unwrap(); total += size; ");
    } else {
        out.append("let size = ");
        push_sized(out, field.stripped.as_str(), "length_stack.pop_front().unwrap()");
        out.append("; total += size; ");
    }
    proof {
        assert(out@ =~= old(out)@ + map_text(*field, index as nat));
    }
}

/// The statements that note where each field begins.
fn maps_string(fields: &Vec<Field>) -> (r: String)
    ensures
        r@ == maps_text(fields@, fields@.len()),
{
    let count = fields.len();
    let mut out = text("let mut map = vec![0usize; ");
    let length = decimal(count as u64);
    out.append(length.as_str());
    out.append("]; let mut total = 0usize; ");
    let mut i: usize = 0;
    proof {
        assert(out@ =~= maps_text(fields@, 0));
    }
    while i < count
        invariant
            i <= count,
            count == fields@.len(),
            out@ == maps_text(fields@, i as nat),
        decreases count - i,
    {
        push_map(&mut out, &fields[i], i);
        i = i + 1;
    }
    out
}

/// Whether one of the fields is a reference.
fn has_pointer(fields: &Vec<Field>) -> (r: bool)
    ensures
        r == any_ptr(fields@),
{
    let mut i: usize = 0;
    while i < fields.len()
        invariant
            i <= fields@.len(),
            forall|j: int| 0 <= j < i ==> !(#[trigger] fields@[j]).has_ptr,
        decreases fields@.len() - i,
    {
        if fields[i].has_ptr {
            return true;
        }
        i = i + 1;
    }
    false
}

/// Whether all fields have names.
pub fn fields_named(fields: &Vec<Field>) -> (r: bool)
    ensures
        r == all_named(fields@),
{
    let mut i: usize = 0;
    while i < fields.len()
        invariant
            i <= fields@.len(),
            forall|j: int| 0 <= j < i ==> (#[trigger] fields@[j]).ident.is_some(),
        decreases fields@.len() - i,
    {
        if fields[i].ident.is_none() {
            return false;
        }
        i = i + 1;
    }
    true
}

/// The three expressions for a list of fields, of which there is at least
/// one: fields with a holder, which all have names, are reached as the
/// holder's fields and read into a struct of the type `ty`; fields without
/// one are reached by their places and read into the variant `instance`, or
/// into `Self`.
pub fn binary_expr_struct(
    ty: &str,
    fields: &Vec<Field>,
    value_ident: Option<&str>,
    instance_ident: Option<&str>,
) -> (r: BinaryExpressions)
    requires
        fields@.len() > 0,
        value_ident.is_some() ==> all_named(fields@),
    ensures
        r.size@ == sizes_text(fields@, fields@.len(), holder_view(value_ident)),
        r.write@ == "{ "@ + writes_text(fields@, fields@.len(), holder_view(value_ident))
            + "Ok(()) }"@,
        r.read@ == read_text(ty@, fields@, holder_view(value_ident), holder_view(instance_ident)),
{
    let count = fields.len();
    let mut size = text("0usize + ");
    push_size(&mut size, &fields[0], 0, value_ident);
    let mut i: usize = 1;
    while i < count
        invariant
            1 <= i <= count,
            count == fields@.len(),
            value_ident.is_some() ==> all_named(fields@),
            size@ == sizes_text(fields@, i as nat, holder_view(value_ident)),
        decreases count - i,
    {
        size.append(" + ");
        push_size(&mut size, &fields[i], i, value_ident);
        i = i + 1;
    }
    let mut write = text("{ ");
    write.append("let mut offset = 0usize; ");
    let mut j: usize = 0;
    proof {
        assert(write@ =~= "{ "@ + writes_text(fields@, 0, holder_view(value_ident)));
    }
    while j < count
        invariant
            j <= count,
            count == fields@.len(),
            value_ident.is_some() ==> all_named(fields@),
            write@ == "{ "@ + writes_text(fields@, j as nat, holder_view(value_ident)),
        decreases count - j,
    {
        push_write(&mut write, &fields[j], j, value_ident);
        proof {
            assert(write@ =~= "{ "@ + writes_text(
                fields@,
                (j + 1) as nat,
                holder_view(value_ident),
            ));
        }
        j = j + 1;
    }
    write.append("Ok(()) }");
    let read = if has_pointer(fields) {
        text("Err(::ipc::binary::BinaryConvertError)")
    } else if value_ident.is_some() {
        let mut read = text("{ ");
        let maps = maps_string(fields);
        read.append(maps.as_str());
        let tokens = named_fields_sequence(ty, fields);
        let statement = render(&tokens);
        read.append(statement.as_str());
        read.append("; Ok(result) }");
        proof {
            assert(token_views(tokens@).len() == tokens@.len());
        }
        read
    } else {
        let variant = match instance_ident {
            Some(name) => name,
            None => "Self",
        };
        let mut read = text("{ ");
        let maps = maps_string(fields);
        read.append(maps.as_str());
        read.append("Ok(");
        let tokens = fields_sequence(fields, variant);
        let literal = render(&tokens);
        read.append(literal.as_str());
        read.append(") }");
        proof {
            assert(token_views(tokens@).len() == tokens@.len());
        }
        read
    };
    BinaryExpressions { size, write, read }
}

/// What a variant of an enum, or a struct, holds.
pub enum VariantData {
    /// Nothing.
    Unit,
    /// Fields without names.
    Tuple(Vec<Field>),
    /// Fields with names.
    Struct(Vec<Field>),
}

/// A variant of an enum.
pub struct Variant {
    /// The variant's name.
    pub name: String,
    /// What the variant holds.
    pub data: VariantData,
}

/// What kind of item a serialization is asked for.
pub enum ItemKind {
    /// A struct.
    Struct(VariantData),
    /// An enum with its variants.
    Enum(Vec<Variant>),
    /// Anything else.
    Other,
}

/// The item that a serialization is asked for.
pub struct Item {
    /// The item's name.
    pub ident: String,
    /// The item's generic parameters as they are written, brackets included.
    pub generics: String,
    /// The item's type as it is written, parameters included.
    pub ty: String,
    /// The item's `where` clause as it is written.
    pub where_clause: String,
    /// What kind of item it is.
    pub kind: ItemKind,
}

/// The three arms of one variant: in the expression for the size, in the
/// one that writes, and in the one that reads.
pub struct BinaryArm {
    /// The arm in the expression for the size.
    pub size: String,
    /// The arm in the expression that writes.
    pub write: String,
    /// The arm in the expression that reads.
    pub read: String,
}

/// The names that a pattern gives to the first `upto` fields of a variant
/// with unnamed fields: `ref __field0, ref __field1, ` and so on.
pub open spec fn tuple_refs_text(upto: nat) -> Seq<char>
    decreases upto,
{
    if upto == 0 {
        Seq::empty()
    } else {
        tuple_refs_text((upto - 1) as nat) + "ref __field"@ + decimal_text((upto - 1) as nat)
            + ", "@
    }
}

/// The names that a pattern gives to the first `upto` fields of a variant
/// with named fields: `first: ref __field0, second: ref __field1, ` and so on.
pub open spec fn struct_refs_text(fields: Seq<Field>, upto: nat) -> Seq<char>
    decreases upto,
{
    if upto == 0 || upto > fields.len() {
        Seq::empty()
    } else {
        struct_refs_text(fields, (upto - 1) as nat) + fields[upto - 1].name().unwrap()
            + ": ref __field"@ + decimal_text((upto - 1) as nat) + ", "@
    }
}

/// The fields that a variant holds; none for one that holds nothing.
pub open spec fn fields_of(data: VariantData) -> Seq<Field> {
    match data {
        VariantData::Unit => Seq::empty(),
        VariantData::Tuple(fields) => fields@,
        VariantData::Struct(fields) => fields@,
    }
}

/// The path of a variant: the enum's name, `::`, the variant's name.
pub open spec fn variant_path(type_ident: Seq<char>, variant: Variant) -> Seq<char> {
    type_ident + "::"@ + variant.name@
}

/// The pattern that matches a variant and names its fields by their places.
pub open spec fn pattern_text(type_ident: Seq<char>, variant: Variant) -> Seq<char> {
    let path = variant_path(type_ident, variant);
    match variant.data {
        VariantData::Unit => path,
        VariantData::Tuple(fields) => path + "("@ + tuple_refs_text(fields@.len()) + ")"@,
        VariantData::Struct(fields) => path + " { "@ + struct_refs_text(fields@, fields@.len())
            + "}"@,
    }
}

/// Whether a variant can be serialized: one with fields has at least one,
/// and named fields all have names.
pub open spec fn variant_supported(variant: Variant) -> bool {
    match variant.data {
        VariantData::Unit => true,
        VariantData::Tuple(fields) => fields@.len() > 0,
        VariantData::Struct(fields) => fields@.len() > 0 && all_named(fields@),
    }
}

/// The arm for a variant in the expression for the size.
pub open spec fn size_arm_text(ty: Seq<char>, type_ident: Seq<char>, variant: Variant) -> Seq<
    char,
> {
    let fields = fields_of(variant.data);
    pattern_text(type_ident, variant) + " => { "@ + if variant.data is Unit {
        "0usize"@
    } else {
        sizes_text(fields, fields.len(), None)
    } + " }"@
}

/// The arm for a variant in the expression that writes: the variant's place
/// goes first, what it holds after it.
pub open spec fn write_arm_text(
    ty: Seq<char>,
    type_ident: Seq<char>,
    variant: Variant,
    index: nat,
) -> Seq<char> {
    let fields = fields_of(variant.data);
    pattern_text(type_ident, variant) + " => { buffer[0] = "@ + decimal_text(index) + "; "@
        + if variant.data is Unit {
        "Ok(())"@
    } else {
        "let buffer = &mut buffer[1..]; "@ + "{ "@ + writes_text(fields, fields.len(), None)
            + "Ok(()) }"@
    } + " }"@
}

/// The arm for a variant in the expression that reads, under the variant's
/// place.
pub open spec fn read_arm_text(
    ty: Seq<char>,
    type_ident: Seq<char>,
    variant: Variant,
    index: nat,
) -> Seq<char> {
    let fields = fields_of(variant.data);
    let path = variant_path(type_ident, variant);
    decimal_text(index) + " => { "@ + if variant.data is Unit {
        "Ok("@ + path + ")"@
    } else {
        read_text(ty, fields, None, Some(path))
    } + " }"@
}

/// Adds the names that a pattern gives to unnamed fields.
fn push_tuple_refs(out: &mut String, count: usize)
    ensures
        final(out)@ == old(out)@ + tuple_refs_text(count as nat),
{
    let mut i: usize = 0;
    proof {
        assert(out@ =~= old(out)@ + tuple_refs_text(0));
    }
    while i < count
        invariant
            i <= count,
            out@ == old(out)@ + tuple_refs_text(i as nat),
        decreases count - i,
    {
        out.append("ref __field");
        let place = decimal(i as u64);
        out.append(place.as_str());
        out.append(", ");
        proof {
            assert(out@ =~= old(out)@ + tuple_refs_text((i + 1) as nat));
        }
        i = i + 1;
    }
}

/// Adds the names that a pattern gives to named fields.
fn push_struct_refs(out: &mut String, fields: &Vec<Field>)
    requires
        all_named(fields@),
    ensures
        final(out)@ == old(out)@ + struct_refs_text(fields@, fields@.len()),
{
    let count = fields.len();
    let mut i: usize = 0;
    proof {
        assert(out@ =~= old(out)@ + struct_refs_text(fields@, 0));
    }
    while i < count
        invariant
            i <= count,
            count == fields@.len(),
            all_named(fields@),
            out@ == old(out)@ + struct_refs_text(fields@, i as nat),
        decreases count - i,
    {
        match &fields[i].ident {
            Some(name) => {
                out.append(name.as_str());
            },
            None => {},
        }
        out.append(": ref __field");
        let place = decimal(i as u64);
        out.append(place.as_str());
        out.append(", ");
        proof {
            assert(out@ =~= old(out)@ + struct_refs_text(fields@, (i + 1) as nat));
        }
        i = i + 1;
    }
}

/// The three arms for the variant at a place of an enum.
pub fn binary_expr_variant(
    ty: &str,
    type_ident: &str,
    variant: &Variant,
    variant_index: usize,
) -> (r: BinaryArm)
    requires
        variant_supported(*variant),
    ensures
        r.size@ == size_arm_text(ty@, type_ident@, *variant),
        r.write@ == write_arm_text(ty@, type_ident@, *variant, variant_index as nat),
        r.read@ == read_arm_text(ty@, type_ident@, *variant, variant_index as nat),
{
    let mut path = text(type_ident);
    path.append("::");
    path.append(variant.name.as_str());
    let index = decimal(variant_index as u64);
    let mut pat = text(path.as_str());
    match &variant.data {
        VariantData::Unit => {},
        VariantData::Tuple(fields) => {
            pat.append("(");
            push_tuple_refs(&mut pat, fields.len());
            pat.append(")");
        },
        VariantData::Struct(fields) => {
            pat.append(" { ");
            push_struct_refs(&mut pat, fields);
            pat.append("}");
        },
    }
    proof {
        assert(pat@ =~= pattern_text(type_ident@, *variant));
    }
    let mut size = text(pat.as_str());
    size.append(" => { ");
    let mut write = text(pat.as_str());
    write.append(" => { buffer[0] = ");
    write.append(index.as_str());
    write.append("; ");
    let mut read = text(index.as_str());
    read.append(" => { ");
    match &variant.data {
        VariantData::Unit => {
            size.append("0usize");
            write.append("Ok(())");
            read.append("Ok(");
            read.append(path.as_str());
            read.append(")");
        },
        VariantData::Tuple(fields) => {
            let exprs = binary_expr_struct(ty, fields, None, Some(path.as_str()));
            size.append(exprs.size.as_str());
            write.append("let buffer = &mut buffer[1..]; ");
            write.append(exprs.write.as_str());
            read.append(exprs.read.as_str());
        },
        VariantData::Struct(fields) => {
            let exprs = binary_expr_struct(ty, fields, None, Some(path.as_str()));
            size.append(exprs.size.as_str());
            write.append("let buffer = &mut buffer[1..]; ");
            write.append(exprs.write.as_str());
            read.append(exprs.read.as_str());
        },
    }
    size.append(" }");
    write.append(" }");
    read.append(" }");
    proof {
        assert(size@ =~= size_arm_text(ty@, type_ident@, *variant));
        assert(write@ =~= write_arm_text(ty@, type_ident@, *variant, variant_index as nat));
        assert(read@ =~= read_arm_text(ty@, type_ident@, *variant, variant_index as nat));
    }
    BinaryArm { size, write, read }
}

/// The arms for the size of the first `upto` variants, a comma after each.
pub open spec fn size_arms_text(
    ty: Seq<char>,
    type_ident: Seq<char>,
    variants: Seq<Variant>,
    upto: nat,
) -> Seq<char>
    decreases upto,
{
    if upto == 0 || upto > variants.len() {
        Seq::empty()
    } else {
        size_arms_text(ty, type_ident, variants, (upto - 1) as nat) + size_arm_text(
            ty,
            type_ident,
            variants[upto - 1],
        ) + ", "@
    }
}

/// The arms that write the first `upto` variants, a comma after each.
pub open spec fn write_arms_text(
    ty: Seq<char>,
    type_ident: Seq<char>,
    variants: Seq<Variant>,
    upto: nat,
) -> Seq<char>
    decreases upto,
{
    if upto == 0 || upto > variants.len() {
        Seq::empty()
    } else {
        write_arms_text(ty, type_ident, variants, (upto - 1) as nat) + write_arm_text(
            ty,
            type_ident,
            variants[upto - 1],
            (upto - 1) as nat,
        ) + ", "@
    }
}

/// The arms that read the first `upto` variants, a comma after each.
pub open spec fn read_arms_text(
    ty: Seq<char>,
    type_ident: Seq<char>,
    variants: Seq<Variant>,
    upto: nat,
) -> Seq<char>
    decreases upto,
{
    if upto == 0 || upto > variants.len() {
        Seq::empty()
    } else {
        read_arms_text(ty, type_ident, variants, (upto - 1) as nat) + read_arm_text(
            ty,
            type_ident,
            variants[upto - 1],
            (upto - 1) as nat,
        ) + ", "@
    }
}

/// Whether every variant can be serialized.
pub open spec fn variants_supported(variants: Seq<Variant>) -> bool {
    forall|i: int| 0 <= i < variants.len() ==> variant_supported(#[trigger] variants[i])
}

/// The three expressions for an enum: a value takes one byte for the place
/// of its variant and what the variant holds; an unknown place cannot be
/// read.
pub fn binary_expr_enum(ty: &str, type_ident: &str, variants: &Vec<Variant>) -> (r:
    BinaryExpressions)
    requires
        variants_supported(variants@),
    ensures
        r.size@ == "1usize + match *self { "@ + size_arms_text(
            ty@,
            type_ident@,
            variants@,
            variants@.len(),
        ) + "}"@,
        r.write@ == "match *self { "@ + write_arms_text(
            ty@,
            type_ident@,
            variants@,
            variants@.len(),
        ) + "};"@,
        r.read@ == "match buffer[0] { "@ + read_arms_text(
            ty@,
            type_ident@,
            variants@,
            variants@.len(),
        ) + "_ => { Err(BinaryConvertError) } }"@,
{
    let count = variants.len();
    let mut size_arms = text("");
    let mut write_arms = text("");
    let mut read_arms = text("");
    let mut i: usize = 0;
    proof {
        reveal_strlit("");
        assert(size_arms@ =~= size_arms_text(ty@, type_ident@, variants@, 0));
        assert(write_arms@ =~= write_arms_text(ty@, type_ident@, variants@, 0));
        assert(read_arms@ =~= read_arms_text(ty@, type_ident@, variants@, 0));
    }
    while i < count
        invariant
            i <= count,
            count == variants@.len(),
            variants_supported(variants@),
            size_arms@ == size_arms_text(ty@, type_ident@, variants@, i as nat),
            write_arms@ == write_arms_text(ty@, type_ident@, variants@, i as nat),
            read_arms@ == read_arms_text(ty@, type_ident@, variants@, i as nat),
        decreases count - i,
    {
        let arm = binary_expr_variant(ty, type_ident, &variants[i], i);
        push_arm(&mut size_arms, arm.size.as_str());
        push_arm(&mut write_arms, arm.write.as_str());
        push_arm(&mut read_arms, arm.read.as_str());
        i = i + 1;
    }
    let mut size = text("1usize + match *self { ");
    size.append(size_arms.as_str());
    size.append("}");
    let mut write = text("match *self { ");
    write.append(write_arms.as_str());
    write.append("};");
    let mut read = text("match buffer[0] { ");
    read.append(read_arms.as_str());
    read.append("_ => { Err(BinaryConvertError) } }");
    BinaryExpressions { size, write, read }
}

/// Adds an arm and the comma after it.
fn push_arm(arms: &mut String, arm: &str)
    ensures
        final(arms)@ == old(arms)@ + arm@ + ", "@,
{
    arms.append(arm);
    arms.append(", ");
}

/// Whether a struct can be serialized: it has fields, and they all have names.
pub open spec fn struct_supported(data: VariantData) -> bool {
    !(data is Unit) && fields_of(data).len() > 0 && all_named(fields_of(data))
}

/// The three expressions for a struct: its fields are reached through
/// `self` and read into a struct of the type `ty`.
pub fn binary_expr_item_struct(ty: &str, variant_data: &VariantData) -> (r: Result<
    BinaryExpressions,
    Error,
>)
    requires
        struct_supported(*variant_data),
    ensures
        r matches Ok(exprs) && exprs.size@ == sizes_text(
            fields_of(*variant_data),
            fields_of(*variant_data).len(),
            Some("self"@),
        ) && exprs.write@ == "{ "@ + writes_text(
            fields_of(*variant_data),
            fields_of(*variant_data).len(),
            Some("self"@),
        ) + "Ok(()) }"@ && exprs.read@ == read_text(
            ty@,
            fields_of(*variant_data),
            Some("self"@),
            None,
        ),
{
    match variant_data {
        VariantData::Tuple(fields) => Ok(binary_expr_struct(ty, fields, Some("self"), None)),
        VariantData::Struct(fields) => Ok(binary_expr_struct(ty, fields, Some("self"), None)),
        VariantData::Unit => Err(Error),
    }
}

/// Whether an item can be serialized: a struct with named fields, at least
/// one; or an enum whose variants can all be serialized. Anything else is
/// turned away, which needs nothing of it.
pub open spec fn item_supported(item: Item) -> bool {
    match item.kind {
        ItemKind::Struct(data) => struct_supported(data),
        ItemKind::Enum(variants) => variants_supported(variants@),
        ItemKind::Other => true,
    }
}

/// The three expressions for a struct or an enum, as its kind asks.
pub open spec fn item_texts(item: Item) -> (Seq<char>, Seq<char>, Seq<char>) {
    match item.kind {
        ItemKind::Struct(data) => (
            sizes_text(fields_of(data), fields_of(data).len(), Some("self"@)),
            "{ "@ + writes_text(fields_of(data), fields_of(data).len(), Some("self"@))
                + "Ok(()) }"@,
            read_text(item.ty@, fields_of(data), Some("self"@), None),
        ),
        ItemKind::Enum(variants) => (
            "1usize + match *self { "@ + size_arms_text(
                item.ty@,
                item.ident@,
                variants@,
                variants@.len(),
            ) + "}"@,
            "match *self { "@ + write_arms_text(item.ty@, item.ident@, variants@, variants@.len())
                + "};"@,
            "match buffer[0] { "@ + read_arms_text(
                item.ty@,
                item.ident@,
                variants@,
                variants@.len(),
            ) + "_ => { Err(BinaryConvertError) } }"@,
        ),
        ItemKind::Other => (Seq::empty(), Seq::empty(), Seq::empty()),
    }
}

/// The three expressions for a struct or an enum.
pub fn binary_expr(item: &Item) -> (r: Result<BinaryExpressions, Error>)
    requires
        item_supported(*item),
        !(item.kind is Other),
    ensures
        r matches Ok(exprs) && (exprs.size@, exprs.write@, exprs.read@) == item_texts(*item),
{
    match &item.kind {
        ItemKind::Struct(data) => binary_expr_item_struct(item.ty.as_str(), data),
        ItemKind::Enum(variants) => Ok(
            binary_expr_enum(item.ty.as_str(), item.ident.as_str(), variants),
        ),
        ItemKind::Other => Err(Error),
    }
}

/// The implementation that is generated for an item: how large a value is,
/// how it is written and how it is read, and that its size varies.
pub open spec fn impl_text(item: Item) -> Seq<char> {
    "impl "@ + item.generics@ + " ::ipc::BinaryConvertable for "@ + item.ty@ + " "@
        + item.where_clause@ + " { fn size(&self) -> usize { "@ + item_texts(item).0
        + " } fn to_bytes(&self, buffer: &mut [u8], length_stack: &mut VecDeque<usize>) -> Result<(), BinaryConvertError> { "@
        + item_texts(item).1
        + " } fn from_bytes(buffer: &[u8], length_stack: &mut VecDeque<usize>) -> Result<Self, BinaryConvertError> { "@
        + item_texts(item).2 + " } fn len_params() -> usize { 1 } }"@
}

/// Writes the implementation of the binary serialization for a struct or an
/// enum. Anything else is turned away.
pub fn serialize_item(item: &Item) -> (r: Result<String, Error>)
    requires
        item_supported(*item),
    ensures
        match r {
            Ok(code) => !(item.kind is Other) && code@ == impl_text(*item),
            Err(_) => item.kind is Other,
        },
{
    match &item.kind {
        ItemKind::Other => {
            return Err(Error);
        },
        _ => {},
    }
    let exprs = match binary_expr(item) {
        Ok(exprs) => exprs,
        Err(e) => {
            return Err(e);
        },
    };
    let mut code = text("impl ");
    code.append(item.generics.as_str());
    code.append(" ::ipc::BinaryConvertable for ");
    code.append(item.ty.as_str());
    code.append(" ");
    code.append(item.where_clause.as_str());
    code.append(" { fn size(&self) -> usize { ");
    code.append(exprs.size.as_str());
    code.append(
        " } fn to_bytes(&self, buffer: &mut [u8], length_stack: &mut VecDeque<usize>) -> Result<(), BinaryConvertError> { ",
    );
    code.append(exprs.write.as_str());
    code.append(
        " } fn from_bytes(buffer: &[u8], length_stack: &mut VecDeque<usize>) -> Result<Self, BinaryConvertError> { ",
    );
    code.append(exprs.read.as_str());
    code.append(" } fn len_params() -> usize { 1 } }");
    proof {
        assert(code@ =~= impl_text(*item));
    }
    Ok(code)
}

/// Whether a variant can be serialized.
fn variant_ok(variant: &Variant) -> (r: bool)
    ensures
        r == variant_supported(*variant),
{
    match &variant.data {
        VariantData::Unit => true,
        VariantData::Tuple(fields) => fields.len() > 0,
        VariantData::Struct(fields) => fields.len() > 0 && fields_named(fields),
    }
}

/// Whether every variant can be serialized.
fn variants_ok(variants: &Vec<Variant>) -> (r: bool)
    ensures
        r == variants_supported(variants@),
{
    let mut i: usize = 0;
    while i < variants.len()
        invariant
            i <= variants@.len(),
            forall|j: int| 0 <= j < i ==> variant_supported(#[trigger] variants@[j]),
        decreases variants@.len() - i,
    {
        if !variant_ok(&variants[i]) {
            proof {
                assert(!variant_supported(variants@[i as int]));
            }
            return false;
        }
        i = i + 1;
    }
    true
}

/// Whether an item can be serialized.
pub fn can_serialize(item: &Item) -> (r: bool)
    ensures
        r == item_supported(*item),
{
    match &item.kind {
        ItemKind::Struct(data) => match data {
            VariantData::Unit => false,
            VariantData::Tuple(fields) => fields.len() > 0 && fields_named(fields),
            VariantData::Struct(fields) => fields.len() > 0 && fields_named(fields),
        },
        ItemKind::Enum(variants) => variants_ok(variants),
        ItemKind::Other => true,
    }
}

} // verus!
