//! Templates of formatted texts.

use vstd::prelude::*;

verus! {

/// The sink that the formatting traits of std write to.
#[verifier::external_type_specification]
#[verifier::external_body]
pub struct ExFormatter<'a>(std::fmt::Formatter<'a>);

/// The error of the formatting traits of std.
#[verifier::external_type_specification]
#[verifier::external_body]
pub struct ExFormatError(std::fmt::Error);

/// How a template wants an argument to be written.
#[verifier::external_type_specification]
#[verifier::external_body]
pub struct ExSpecifier(rt_format::Specifier);

/// An argument of a template whose value is not known yet. It can be written in every
/// way, and serves as a width or a precision.
#[derive(Clone, Copy, Debug)]
pub struct ParserFormatArg;

impl rt_format::FormatArgument for ParserFormatArg {
    fn supports_format(&self, _specifier: &rt_format::Specifier) -> bool {
        true
    }

    fn fmt_display(&self, _f: &mut std::fmt::Formatter) -> std::fmt::Result {
        Ok(())
    }

    fn fmt_debug(&self, _f: &mut std::fmt::Formatter) -> std::fmt::Result {
        Ok(())
    }

    fn fmt_octal(&self, _f: &mut std::fmt::Formatter) -> std::fmt::Result {
        Ok(())
    }

    fn fmt_lower_hex(&self, _f: &mut std::fmt::Formatter) -> std::fmt::Result {
        Ok(())
    }

    fn fmt_upper_hex(&self, _f: &mut std::fmt::Formatter) -> std::fmt::Result {
        Ok(())
    }

    fn fmt_binary(&self, _f: &mut std::fmt::Formatter) -> std::fmt::Result {
        Ok(())
    }

    fn fmt_lower_exp(&self, _f: &mut std::fmt::Formatter) -> std::fmt::Result {
        Ok(())
    }

    fn fmt_upper_exp(&self, _f: &mut std::fmt::Formatter) -> std::fmt::Result {
        Ok(())
    }

    fn to_usize(&self) -> Result<usize, ()> {
        Ok(0)
    }
}

/// Where `rt_format` finds a template wrong, given how many arguments of unknown value
/// it has and no named ones.
pub uninterp spec fn template_fault(template: Seq<char>, arguments: nat) -> Option<usize>;

/// `rt_format::ParsedFormat::parse` on a template, with positional arguments that can be
/// written in every way and no named ones: nothing, or the byte near which the template
/// is wrong. That depends on the text and on the number of arguments alone, the
/// arguments all being alike. A text without braces has nothing wrong with it.
#[verifier::external_body]
pub(crate) fn parse_template(template: &str, arguments: &Vec<ParserFormatArg>) -> (r: Option<usize>)
    ensures
        r == template_fault(template@, arguments@.len()),
        (forall|i: int|
            0 <= i < template@.len() ==> (#[trigger] template@[i]) != '{' && template@[i] != '}')
            ==> r is None,
{
    rt_format::ParsedFormat::parse(
        template,
        arguments.as_slice(),
        &rt_format::NoNamedArguments,
    ).err()
}

/// Where a template with a number of arguments is wrong.
pub fn find_template_fault(template: &str, arguments: usize) -> (r: Option<usize>)
    ensures
        r == template_fault(template@, arguments as nat),
        (forall|i: int|
            0 <= i < template@.len() ==> (#[trigger] template@[i]) != '{' && template@[i] != '}')
            ==> r is None,
{
    let mut list: Vec<ParserFormatArg> = Vec::new();
    let mut i: usize = 0;
    while i < arguments
        invariant
            i <= arguments,
            list@.len() == i,
        decreases arguments - i,
    {
        list.push(ParserFormatArg);
        i += 1;
    }
    parse_template(template, &list)
}

} // verus!
