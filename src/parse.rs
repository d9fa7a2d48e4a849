use vstd::prelude::*;
use vstd::string::{StrSliceExecFns, StringExecFns};
use crate::ider::{NameBank, interned};
use crate::ledger::{Date, Trans, TransExt};

verus! {

pub open spec fn is_digit(c: char) -> bool {
    '0' <= c && c <= '9'
}

/// The value of a string of decimal digits.
pub open spec fn digits_value(s: Seq<char>) -> int
    decreases s.len(),
{
    if s.len() == 0 {
        0
    } else {
        digits_value(s.drop_last()) * 10 + ((s.last() as u32) - ('0' as u32))
    }
}

/// The decimal number `s` spells, an optional `+` then digits, when it is at
/// most `max`.
pub open spec fn parse_unsigned(s: Seq<char>, max: int) -> Option<int> {
    let d = if s.len() > 0 && s[0] == '+' {
        s.drop_first()
    } else {
        s
    };
    if d.len() > 0 && (forall|i: int| 0 <= i < d.len() ==> is_digit(#[trigger] d[i]))
        && digits_value(d) <= max {
        Some(digits_value(d))
    } else {
        None
    }
}

/// Relies on term_basics_linux::string_to_value, which is `str::parse`: for
/// `u16` it takes an optional `+` and decimal digits, up to `u16::MAX`.
#[verifier::external_body]
fn string_to_u16(s: &str) -> (r: Option<u16>)
    ensures
        r matches Some(v) ==> parse_unsigned(s@, u16::MAX as int) == Some(v as int),
        r is None ==> parse_unsigned(s@, u16::MAX as int) is None,
{
    term_basics_linux::string_to_value::<u16>(s)
}

/// `s` cut at every `sep`: one more piece than there are separators.
pub open spec fn split_spec(s: Seq<char>, sep: char) -> Seq<Seq<char>>
    decreases s.len(),
{
    if s.len() == 0 {
        seq![Seq::<char>::empty()]
    } else {
        let rest = split_spec(s.drop_last(), sep);
        if s.last() == sep {
            rest.push(Seq::<char>::empty())
        } else {
            rest.update(rest.len() - 1, rest.last().push(s.last()))
        }
    }
}

proof fn lemma_split_nonempty(s: Seq<char>, sep: char)
    ensures
        split_spec(s, sep).len() >= 1,
    decreases s.len(),
{
    if s.len() > 0 {
        lemma_split_nonempty(s.drop_last(), sep);
    }
}

/// The pieces of `line` between the separators `sep`.
pub fn split_fields(line: &str, sep: char) -> (r: Vec<String>)
    ensures
        r@.map_values(|f: String| f@) == split_spec(line@, sep),
{
    let n = line.unicode_len();
    let mut fields: Vec<String> = Vec::new();
    let mut start: usize = 0;
    let mut i: usize = 0;
    proof {
        assert(line@.subrange(0, 0) =~= Seq::<char>::empty());
        assert(fields@.map_values(|f: String| f@).push(line@.subrange(0, 0)) =~= seq![
            Seq::<char>::empty(),
        ]);
    }
    while i < n
        invariant
            n == line@.len(),
            start <= i <= n,
            fields@.map_values(|f: String| f@).push(line@.subrange(start as int, i as int))
                == split_spec(line@.subrange(0, i as int), sep),
        decreases n - i,
    {
        let c = line.get_char(i);
        proof {
            let pre = line@.subrange(0, i as int + 1);
            assert(pre.drop_last() =~= line@.subrange(0, i as int));
            assert(pre.last() == c);
            lemma_split_nonempty(line@.subrange(0, i as int), sep);
        }
        if c == sep {
            let piece = line.substring_char(start, i).to_owned();
            fields.push(piece);
            start = i + 1;
            proof {
                assert(line@.subrange(start as int, i as int + 1) =~= Seq::<char>::empty());
                assert(fields@.map_values(|f: String| f@) =~= split_spec(line@.subrange(0, i as int), sep));
            }
        } else {
            proof {
                assert(line@.subrange(start as int, i as int + 1) =~= line@.subrange(start as int, i as int).push(c));
            }
        }
        i += 1;
        proof {
            assert(fields@.map_values(|f: String| f@).push(line@.subrange(start as int, i as int))
                =~= split_spec(line@.subrange(0, i as int), sep));
        }
    }
    let last = line.substring_char(start, n).to_owned();
    fields.push(last);
    proof {
        assert(line@.subrange(0, n as int) =~= line@);
        assert(fields@.map_values(|f: String| f@) =~= split_spec(line@, sep));
    }
    fields
}

/// Why a line is no transaction.
#[derive(Debug, PartialEq, Eq)]
pub enum TransErr {
    UnknownCommand(String),
    NotEnoughFields(String),
    DateFields,
    ParseError(String, String),
    FloatError(String, String, String),
    MultipleFloats(String),
}

/// A `TransErr` with its texts as character sequences.
pub enum TransErrView {
    UnknownCommand(Seq<char>),
    NotEnoughFields(Seq<char>),
    DateFields,
    ParseError(Seq<char>, Seq<char>),
    FloatError(Seq<char>, Seq<char>, Seq<char>),
    MultipleFloats(Seq<char>),
}

impl View for TransErr {
    type V = TransErrView;

    open spec fn view(&self) -> TransErrView {
        match self {
            TransErr::UnknownCommand(c) => TransErrView::UnknownCommand(c@),
            TransErr::NotEnoughFields(f) => TransErrView::NotEnoughFields(f@),
            TransErr::DateFields => TransErrView::DateFields,
            TransErr::ParseError(f, w) => TransErrView::ParseError(f@, w@),
            TransErr::FloatError(f, w, e) => TransErrView::FloatError(f@, w@, e@),
            TransErr::MultipleFloats(f) => TransErrView::MultipleFloats(f@),
        }
    }
}

/// The sentence describing an error.
pub open spec fn message_of(e: TransErrView) -> Seq<char> {
    match e {
        TransErrView::UnknownCommand(c) => "Unknown command: "@ + c,
        TransErrView::NotEnoughFields(f) => "Not enough fields (comma separated) for "@ + f,
        TransErrView::DateFields => "A date needs 3 fields (day/month/year)"@,
        TransErrView::ParseError(f, w) => "Could not parse '"@ + w + "' in field '"@ + f + "'"@,
        TransErrView::FloatError(f, w, e) => "Could not parse '"@ + w + "' in float '"@ + f
            + "': "@ + e,
        TransErrView::MultipleFloats(f) => "Field '"@ + f
            + "' returned more than one floating point value"@,
    }
}

impl TransErr {
    /// The error as a sentence.
    pub fn message(&self) -> (r: String)
        ensures
            r@ == message_of(self@),
    {
        match self {
            TransErr::UnknownCommand(cmd) => "Unknown command: ".to_owned().concat(cmd.as_str()),
            TransErr::NotEnoughFields(field) => "Not enough fields (comma separated) for ".to_owned().concat(field.as_str()),
            TransErr::DateFields => "A date needs 3 fields (day/month/year)".to_owned(),
            TransErr::ParseError(field, wrong) => "Could not parse '".to_owned().concat(
                wrong.as_str(),
            ).concat("' in field '").concat(field.as_str()).concat("'"),
            TransErr::FloatError(field, wrong, error) => "Could not parse '".to_owned().concat(
                wrong.as_str(),
            ).concat("' in float '").concat(field.as_str()).concat("': ").concat(
                error.as_str(),
            ),
            TransErr::MultipleFloats(field) => "Field '".to_owned().concat(field.as_str()).concat(
                "' returned more than one floating point value",
            ),
        }
    }
}

/// A date field: day, month and year separated by `/`.
pub open spec fn date_spec(s: Seq<char>) -> Result<Date, TransErrView> {
    let p = split_spec(s, '/');
    if p.len() != 3 {
        Err(TransErrView::DateFields)
    } else if parse_unsigned(p[0], 255) is None {
        Err(TransErrView::ParseError("day"@, p[0]))
    } else if parse_unsigned(p[1], 255) is None {
        Err(TransErrView::ParseError("month"@, p[1]))
    } else if parse_unsigned(p[2], u16::MAX as int) is None {
        Err(TransErrView::ParseError("year"@, p[2]))
    } else {
        Ok(
            (
                parse_unsigned(p[0], 255)->Some_0 as u8,
                parse_unsigned(p[1], 255)->Some_0 as u8,
                parse_unsigned(p[2], u16::MAX as int)->Some_0 as u16,
            ),
        )
    }
}

fn parse_small(s: &str, field: &str) -> (r: Result<u8, TransErr>)
    ensures
        r matches Ok(v) ==> parse_unsigned(s@, 255) == Some(v as int),
        r matches Err(e) ==> parse_unsigned(s@, 255) is None && e@ == TransErrView::ParseError(
            field@,
            s@,
        ),
{
    match string_to_u16(s) {
        Some(v) => {
            if v <= 255 {
                Ok(v as u8)
            } else {
                Err(TransErr::ParseError(field.to_owned(), s.to_owned()))
            }
        },
        None => Err(TransErr::ParseError(field.to_owned(), s.to_owned())),
    }
}

/// Parses a date field.
pub fn parse_date(s: &str) -> (r: Result<Date, TransErr>)
    ensures
        r matches Ok(d) ==> date_spec(s@) == Ok::<Date, TransErrView>(d),
        r matches Err(e) ==> date_spec(s@) == Err::<Date, TransErrView>(e@),
{
    let p = split_fields(s, '/');
    proof {
        assert(p@.len() == split_spec(s@, '/').len());
    }
    if p.len() != 3 {
        return Err(TransErr::DateFields);
    }
    proof {
        assert(p@[0]@ == split_spec(s@, '/')[0]);
        assert(p@[1]@ == split_spec(s@, '/')[1]);
        assert(p@[2]@ == split_spec(s@, '/')[2]);
    }
    let day = match parse_small(p[0].as_str(), "day") {
        Ok(v) => v,
        Err(e) => {
            return Err(e);
        },
    };
    let month = match parse_small(p[1].as_str(), "month") {
        Ok(v) => v,
        Err(e) => {
            return Err(e);
        },
    };
    let year = match string_to_u16(p[2].as_str()) {
        Some(v) => v,
        None => {
            return Err(TransErr::ParseError("year".to_owned(), p[2].clone()));
        },
    };
    Ok((day, month, year))
}

/// What a line asks for.
#[derive(Debug, Copy, Clone, PartialEq, Eq, Structural)]
pub enum Command {
    Mov,
    Assign,
    Tra,
    Dec,
    Pri,
    Pin,
    Con,
    Ass,
    Deb,
}

/// The command a first field names.
pub open spec fn command_of(s: Seq<char>) -> Option<Command> {
    if s == "mov"@ {
        Some(Command::Mov)
    } else if s == "set"@ {
        Some(Command::Assign)
    } else if s == "tra"@ {
        Some(Command::Tra)
    } else if s == "dec"@ {
        Some(Command::Dec)
    } else if s == "pri"@ {
        Some(Command::Pri)
    } else if s == "pin"@ {
        Some(Command::Pin)
    } else if s == "con"@ {
        Some(Command::Con)
    } else if s == "ass"@ {
        Some(Command::Ass)
    } else if s == "deb"@ {
        Some(Command::Deb)
    } else {
        None
    }
}

/// The name of a command in error messages.
pub open spec fn command_name(c: Command) -> Seq<char> {
    match c {
        Command::Mov => "mov"@,
        Command::Assign => "set"@,
        Command::Tra => "tra"@,
        Command::Dec => "dec"@,
        Command::Pri => "pri"@,
        Command::Pin => "pin"@,
        Command::Con => "con"@,
        Command::Ass => "ass"@,
        Command::Deb => "deb"@,
    }
}

/// The number of fields a command needs.
pub open spec fn min_fields(c: Command) -> int {
    match c {
        Command::Mov => 5,
        Command::Assign => 4,
        Command::Tra => 6,
        Command::Dec => 4,
        Command::Pri => 5,
        Command::Pin => 5,
        Command::Con => 6,
        Command::Ass => 3,
        Command::Deb => 3,
    }
}

/// The field where a command's tags start.
pub open spec fn tags_from(c: Command) -> int {
    match c {
        Command::Mov => 6,
        Command::Assign => 5,
        Command::Tra => 7,
        Command::Dec => 4,
        Command::Pri => 5,
        Command::Pin => 5,
        Command::Con => 6,
        Command::Ass => 3,
        Command::Deb => 3,
    }
}

/// A command names accounts (else assets).
pub open spec fn names_accounts(c: Command) -> bool {
    !(c is Dec || c is Pri || c is Pin || c is Con)
}

/// The fields holding the names a command refers to, in order.
pub open spec fn name_fields(c: Command) -> Seq<int> {
    match c {
        Command::Mov => seq![2int, 3],
        Command::Tra => seq![2int, 3],
        Command::Con => seq![2int, 4],
        _ => seq![2int],
    }
}

/// The fields holding a command's amounts, in order, with each amount's name
/// and whether it is a plain number rather than an expression.
pub open spec fn amount_fields(c: Command) -> Seq<(int, Seq<char>, bool)> {
    match c {
        Command::Mov => seq![(4int, "amount"@, false)],
        Command::Assign => seq![(3int, "amount"@, false)],
        Command::Tra => seq![(4int, "sub"@, false), (5int, "add"@, false)],
        Command::Dec => seq![(3int, "amount"@, false)],
        Command::Pri => seq![(3int, "amount"@, true), (4int, "worth"@, false)],
        Command::Pin => seq![(3int, "amount"@, true), (4int, "worth"@, false)],
        Command::Con => seq![(3int, "src_amount"@, false), (5int, "dst_amount"@, false)],
        Command::Ass => seq![],
        Command::Deb => seq![],
    }
}

/// An amount still in its written form.
pub struct AmountText {
    /// Which amount of the command it is.
    pub field: String,
    pub text: String,
    /// A plain number, not an expression.
    pub plain: bool,
}

/// A parsed line whose amounts are not evaluated yet.
pub struct Pending {
    pub date: Date,
    pub command: Command,
    /// The account or asset ids the command names, in order.
    pub ids: Vec<usize>,
    pub amounts: Vec<AmountText>,
    pub tags: Vec<String>,
}

/// `names` after interning each of `more` in turn.
pub open spec fn intern_all(names: Seq<Seq<char>>, more: Seq<Seq<char>>) -> Seq<Seq<char>>
    decreases more.len(),
{
    if more.len() == 0 {
        names
    } else {
        interned(intern_all(names, more.drop_last()), more.last())
    }
}

proof fn lemma_interned_extends(names: Seq<Seq<char>>, s: Seq<char>)
    ensures
        interned(names, s).len() >= names.len(),
        forall|i: int| 0 <= i < names.len() ==> interned(names, s)[i] == names[i],
{
}

/// The fields of a line.
pub open spec fn fields_of(line: Seq<char>) -> Seq<Seq<char>> {
    split_spec(line, ',')
}

/// Blank lines and comments are no transactions.
pub open spec fn ignored(line: Seq<char>) -> bool {
    line.len() == 0 || line[0] == '#'
}

/// The date field is `_` (keep the date) or a valid date.
pub open spec fn date_kept_or_valid(f: Seq<Seq<char>>) -> bool {
    f[1] == "_"@ || date_spec(f[1]) is Ok
}

/// The date after a line with fields `f` whose date field is usable.
pub open spec fn date_after(f: Seq<Seq<char>>, date: Date) -> Date {
    if f[1] == "_"@ {
        date
    } else {
        date_spec(f[1])->Ok_0
    }
}

/// The names of a line's fields at `idx`.
pub open spec fn names_at(f: Seq<Seq<char>>, idx: Seq<int>) -> Seq<Seq<char>> {
    idx.map_values(|i: int| f[i])
}

/// The tag fields of a line.
pub open spec fn tag_fields(f: Seq<Seq<char>>, c: Command) -> Seq<Seq<char>> {
    if tags_from(c) <= f.len() {
        f.subrange(tags_from(c), f.len() as int)
    } else {
        Seq::empty()
    }
}

impl Pending {
    /// `self` is what a line with fields `f` and command `c` gives at date
    /// `date`, with names interned in `space` (accounts or assets, by `c`).
    pub open spec fn parsed_from(
        &self,
        f: Seq<Seq<char>>,
        c: Command,
        date: Date,
        space: Seq<Seq<char>>,
    ) -> bool {
        &&& self.command == c
        &&& self.date == date
        &&& self.ids@.len() == name_fields(c).len()
        &&& forall|k: int|
            0 <= k < self.ids@.len() ==> #[trigger] self.ids@[k] < space.len() && space[self.ids@[k] as int]
                == f[name_fields(c)[k]]
        &&& self.amounts@.len() == amount_fields(c).len()
        &&& forall|k: int|
            0 <= k < self.amounts@.len() ==> {
                &&& (#[trigger] self.amounts@[k]).field@ == amount_fields(c)[k].1
                &&& self.amounts@[k].text@ == f[amount_fields(c)[k].0]
                &&& self.amounts@[k].plain == amount_fields(c)[k].2
            }
        &&& self.tags@.map_values(|t: String| t@) == tag_fields(f, c)
    }
}

fn command_exec(s: &String) -> (r: Option<Command>)
    ensures
        r == command_of(s@),
{
    if *s == "mov".to_owned() {
        Some(Command::Mov)
    } else if *s == "set".to_owned() {
        Some(Command::Assign)
    } else if *s == "tra".to_owned() {
        Some(Command::Tra)
    } else if *s == "dec".to_owned() {
        Some(Command::Dec)
    } else if *s == "pri".to_owned() {
        Some(Command::Pri)
    } else if *s == "pin".to_owned() {
        Some(Command::Pin)
    } else if *s == "con".to_owned() {
        Some(Command::Con)
    } else if *s == "ass".to_owned() {
        Some(Command::Ass)
    } else if *s == "deb".to_owned() {
        Some(Command::Deb)
    } else {
        None
    }
}

fn command_name_exec(c: Command) -> (r: String)
    ensures
        r@ == command_name(c),
{
    match c {
        Command::Mov => "mov".to_owned(),
        Command::Assign => "set".to_owned(),
        Command::Tra => "tra".to_owned(),
        Command::Dec => "dec".to_owned(),
        Command::Pri => "pri".to_owned(),
        Command::Pin => "pin".to_owned(),
        Command::Con => "con".to_owned(),
        Command::Ass => "ass".to_owned(),
        Command::Deb => "deb".to_owned(),
    }
}

fn min_fields_exec(c: Command) -> (r: usize)
    ensures
        r == min_fields(c),
{
    match c {
        Command::Mov => 5,
        Command::Assign => 4,
        Command::Tra => 6,
        Command::Dec => 4,
        Command::Pri => 5,
        Command::Pin => 5,
        Command::Con => 6,
        Command::Ass => 3,
        Command::Deb => 3,
    }
}

fn tags_from_exec(c: Command) -> (r: usize)
    ensures
        r == tags_from(c),
{
    match c {
        Command::Mov => 6,
        Command::Assign => 5,
        Command::Tra => 7,
        Command::Dec => 4,
        Command::Pri => 5,
        Command::Pin => 5,
        Command::Con => 6,
        Command::Ass => 3,
        Command::Deb => 3,
    }
}

fn name_fields_exec(c: Command) -> (r: Vec<usize>)
    ensures
        r@.len() == name_fields(c).len(),
        forall|k: int| 0 <= k < r@.len() ==> r@[k] == name_fields(c)[k],
{
    match c {
        Command::Mov => vec![2, 3],
        Command::Tra => vec![2, 3],
        Command::Con => vec![2, 4],
        _ => vec![2],
    }
}

fn amount_text(f: &Vec<String>, i: usize, field: &str, plain: bool) -> (r: AmountText)
    requires
        i < f@.len(),
    ensures
        r.field@ == field@,
        r.text@ == f@[i as int]@,
        r.plain == plain,
{
    AmountText { field: field.to_owned(), text: f[i].clone(), plain }
}

fn amounts_exec(f: &Vec<String>, c: Command) -> (r: Vec<AmountText>)
    requires
        f@.len() >= min_fields(c),
    ensures
        r@.len() == amount_fields(c).len(),
        forall|k: int|
            0 <= k < r@.len() ==> {
                &&& (#[trigger] r@[k]).field@ == amount_fields(c)[k].1
                &&& r@[k].text@ == f@[amount_fields(c)[k].0]@
                &&& r@[k].plain == amount_fields(c)[k].2
            },
{
    match c {
        Command::Mov => vec![amount_text(f, 4, "amount", false)],
        Command::Assign => vec![amount_text(f, 3, "amount", false)],
        Command::Tra => vec![amount_text(f, 4, "sub", false), amount_text(f, 5, "add", false)],
        Command::Dec => vec![amount_text(f, 3, "amount", false)],
        Command::Pri => vec![amount_text(f, 3, "amount", true), amount_text(f, 4, "worth", false)],
        Command::Pin => vec![amount_text(f, 3, "amount", true), amount_text(f, 4, "worth", false)],
        Command::Con => vec![
            amount_text(f, 3, "src_amount", false),
            amount_text(f, 5, "dst_amount", false),
        ],
        Command::Ass => Vec::new(),
        Command::Deb => Vec::new(),
    }
}

/// The texts of a list of strings.
pub open spec fn texts(f: Seq<String>) -> Seq<Seq<char>> {
    f.map_values(|s: String| s@)
}

/// The names a command refers to, in the space it names them in.
pub open spec fn space_of(nb: NameBank, c: Command) -> Seq<Seq<char>> {
    if names_accounts(c) {
        nb.accounts_view()
    } else {
        nb.assets_view()
    }
}

/// `a` and `b` agree on every space but the one `c` names into.
pub open spec fn others_unchanged(a: NameBank, b: NameBank, c: Command) -> bool {
    &&& names_accounts(c) ==> a.assets_view() == b.assets_view()
    &&& !names_accounts(c) ==> a.accounts_view() == b.accounts_view()
    &&& a.tags_view() == b.tags_view()
}

fn intern_names(nb: &mut NameBank, f: &Vec<String>, c: Command) -> (r: Vec<usize>)
    requires
        old(nb).spaces_wf(),
        f@.len() >= min_fields(c),
    ensures
        final(nb).spaces_wf(),
        old(nb).wf() ==> final(nb).wf(),
        space_of(*final(nb), c) == intern_all(
            space_of(*old(nb), c),
            names_at(texts(f@), name_fields(c)),
        ),
        others_unchanged(*old(nb), *final(nb), c),
        r@.len() == name_fields(c).len(),
        forall|k: int|
            0 <= k < r@.len() ==> #[trigger] r@[k] < space_of(*final(nb), c).len() && space_of(
                *final(nb),
                c,
            )[r@[k] as int] == texts(f@)[name_fields(c)[k]],
{
    let idx = name_fields_exec(c);
    let ghost fv = texts(f@);
    let ghost all = names_at(fv, name_fields(c));
    let ghost space0 = space_of(*nb, c);
    let mut ids: Vec<usize> = Vec::new();
    let mut k: usize = 0;
    proof {
        assert(all.subrange(0, 0) =~= Seq::<Seq<char>>::empty());
    }
    while k < idx.len()
        invariant
            k <= idx@.len() == name_fields(c).len() == all.len(),
            forall|j: int| 0 <= j < idx@.len() ==> idx@[j] == name_fields(c)[j],
            forall|j: int| 0 <= j < idx@.len() ==> 2 <= #[trigger] name_fields(c)[j] < f@.len(),
            fv == texts(f@),
            all == names_at(fv, name_fields(c)),
            nb.spaces_wf(),
            old(nb).wf() ==> nb.wf(),
            space_of(*nb, c) == intern_all(space0, all.subrange(0, k as int)),
            others_unchanged(*old(nb), *nb, c),
            space0 == space_of(*old(nb), c),
            ids@.len() == k,
            forall|j: int|
                0 <= j < k ==> #[trigger] ids@[j] < space_of(*nb, c).len() && space_of(
                    *nb,
                    c,
                )[ids@[j] as int] == fv[name_fields(c)[j]],
        decreases idx.len() - k,
    {
        let i = idx[k];
        let name = f[i].clone();
        let ghost before = space_of(*nb, c);
        let id = if names_accounts_exec(c) {
            nb.account_id(name)
        } else {
            nb.asset_id(name)
        };
        proof {
            lemma_interned_extends(before, fv[i as int]);
            assert(all.subrange(0, k + 1).drop_last() =~= all.subrange(0, k as int));
            assert(all[k as int] == fv[i as int]);
        }
        ids.push(id);
        k += 1;
    }
    proof {
        assert(all.subrange(0, all.len() as int) =~= all);
    }
    ids
}

fn names_accounts_exec(c: Command) -> (r: bool)
    ensures
        r == names_accounts(c),
{
    match c {
        Command::Dec | Command::Pri | Command::Pin | Command::Con => false,
        _ => true,
    }
}

fn tag_strings(f: &Vec<String>, from: usize) -> (r: Vec<String>)
    ensures
        texts(r@) == if from <= f@.len() {
            texts(f@).subrange(from as int, f@.len() as int)
        } else {
            Seq::empty()
        },
{
    let mut tags: Vec<String> = Vec::new();
    let mut i: usize = from;
    while i < f.len()
        invariant
            from <= i,
            i < f@.len() ==> texts(tags@) == texts(f@).subrange(from as int, i as int),
            i >= f@.len() ==> texts(tags@) == if from <= f@.len() {
                texts(f@).subrange(from as int, f@.len() as int)
            } else {
                Seq::empty()
            },
            i == from ==> tags@.len() == 0,
        decreases f.len() - i,
    {
        tags.push(f[i].clone());
        proof {
            assert(texts(tags@) =~= texts(f@).subrange(from as int, i + 1));
        }
        i += 1;
    }
    proof {
        if from >= f@.len() {
            assert(texts(tags@) =~= Seq::<Seq<char>>::empty());
        }
    }
    tags
}

proof fn lemma_placeholder_no_date()
    ensures
        date_spec("_"@) is Err,
{
    reveal_strlit("_");
    let s = "_"@;
    assert(s.drop_last() =~= Seq::<char>::empty());
    assert(split_spec(s.drop_last(), '/').len() == 1);
    assert(split_spec(s, '/').len() == 1);
}

/// `r` is the error `e`.
pub open spec fn fails_with(r: Option<Result<Pending, TransErr>>, e: TransErrView) -> bool {
    match r {
        Some(Err(x)) => x@ == e,
        _ => false,
    }
}

/// `r` is a line parsed from fields `f` with command `c`, at `date`, its names
/// in `space`.
pub open spec fn parses_to(
    r: Option<Result<Pending, TransErr>>,
    f: Seq<Seq<char>>,
    c: Command,
    date: Date,
    space: Seq<Seq<char>>,
) -> bool {
    match r {
        Some(Ok(p)) => p.parsed_from(f, c, date, space),
        _ => false,
    }
}

/// The three spaces of `a` and `b` agree.
pub open spec fn same_names(a: NameBank, b: NameBank) -> bool {
    &&& a.accounts_view() == b.accounts_view()
    &&& a.assets_view() == b.assets_view()
    &&& a.tags_view() == b.tags_view()
}

/// A line of the ledger file, parsed into a transaction whose amounts are
/// still text.
pub trait IntoTrans {
    fn into_trans(self, nb: &mut NameBank, date: &mut Date) -> (r: Option<
        Result<Pending, TransErr>,
    >)
        requires
            old(nb).spaces_wf(),
        ensures
            final(nb).spaces_wf(),
            old(nb).wf() ==> final(nb).wf(),
    ;
}

impl IntoTrans for String {
    /// Parses the line as `parse_line` does.
    fn into_trans(self, nb: &mut NameBank, date: &mut Date) -> (r: Option<
        Result<Pending, TransErr>,
    >)
        ensures
            parse_outcome(self@, *old(nb), *final(nb), *old(date), *final(date), r),
    {
        parse_line(self.as_str(), nb, date)
    }
}

/// What parsing `line` gives: `r`, with the names `nb0` becoming `nb1` and
/// the date `d0` becoming `d1`.
pub open spec fn parse_outcome(
    line: Seq<char>,
    nb0: NameBank,
    nb1: NameBank,
    d0: Date,
    d1: Date,
    r: Option<Result<Pending, TransErr>>,
) -> bool {
    let f = fields_of(line);
    if ignored(line) {
        r is None && d1 == d0 && same_names(nb0, nb1)
    } else if f.len() < 2 {
        d1 == d0 && same_names(nb0, nb1) && fails_with(
            r,
            TransErrView::NotEnoughFields("any command"@),
        )
    } else if !date_kept_or_valid(f) {
        d1 == d0 && same_names(nb0, nb1) && fails_with(r, date_spec(f[1])->Err_0)
    } else if f[0] == "dat"@ {
        d1 == date_after(f, d0) && same_names(nb0, nb1) && match date_spec(f[1]) {
            Ok(_) => r is None,
            Err(e) => fails_with(r, e),
        }
    } else {
        d1 == date_after(f, d0) && match command_of(f[0]) {
            None => same_names(nb0, nb1) && fails_with(r, TransErrView::UnknownCommand(f[0])),
            Some(c) => if f.len() < min_fields(c) {
                same_names(nb0, nb1) && fails_with(
                    r,
                    TransErrView::NotEnoughFields(command_name(c)),
                )
            } else {
                &&& space_of(nb1, c) == intern_all(space_of(nb0, c), names_at(f, name_fields(c)))
                &&& others_unchanged(nb0, nb1, c)
                &&& parses_to(r, f, c, d1, space_of(nb1, c))
            },
        }
    }
}

/// Parses one line of the ledger file: comma-separated fields, the command
/// first, then the date (`_` keeps the date of the line before), then the
/// command's names and amounts, then tags. Blank lines, comments and `dat`
/// lines (which only set the date) give nothing. Names are interned in `nb`;
/// amounts are left as text.
pub fn parse_line(line: &str, nb: &mut NameBank, date: &mut Date) -> (r: Option<
    Result<Pending, TransErr>,
>)
    requires
        old(nb).spaces_wf(),
    ensures
        final(nb).spaces_wf(),
        old(nb).wf() ==> final(nb).wf(),
        parse_outcome(line@, *old(nb), *final(nb), *old(date), *final(date), r),
{
    if line.unicode_len() == 0 {
        return None;
    }
    if line.get_char(0) == '#' {
        return None;
    }
    let f = split_fields(line, ',');
    let ghost fv = fields_of(line@);
    proof {
        assert(texts(f@) == fv);
    }
    if f.len() < 2 {
        return Some(Err(TransErr::NotEnoughFields("any command".to_owned())));
    }
    proof {
        assert(f@[1]@ == fv[1]);
        assert(f@[0]@ == fv[0]);
    }
    if f[1] != "_".to_owned() {
        match parse_date(f[1].as_str()) {
            Ok(d) => {
                *date = d;
            },
            Err(e) => {
                return Some(Err(e));
            },
        }
    }
    proof {
        if fv[1] == "_"@ {
            lemma_placeholder_no_date();
        }
    }
    if f[0] == "dat".to_owned() {
        match parse_date(f[1].as_str()) {
            Ok(d) => {
                *date = d;
                return None;
            },
            Err(e) => {
                return Some(Err(e));
            },
        }
    }
    let c = match command_exec(&f[0]) {
        Some(c) => c,
        None => {
            return Some(Err(TransErr::UnknownCommand(f[0].clone())));
        },
    };
    if f.len() < min_fields_exec(c) {
        return Some(Err(TransErr::NotEnoughFields(command_name_exec(c))));
    }
    let ids = intern_names(nb, &f, c);
    let amounts = amounts_exec(&f, c);
    let tags = tag_strings(&f, tags_from_exec(c));
    let p = Pending { date: *date, command: c, ids, amounts, tags };
    proof {
        assert forall|k: int| 0 <= k < p.amounts@.len() implies #[trigger] p.amounts@[k].text@
            == fv[amount_fields(c)[k].0] by {
            assert(f@[amount_fields(c)[k].0]@ == fv[amount_fields(c)[k].0]);
        };
        assert(p.tags@.map_values(|t: String| t@) == tag_fields(fv, c));
    }
    Some(Ok(p))
}

/// The operation a command gives with names `ids` and amounts `v`.
pub open spec fn ext_of(c: Command, ids: Seq<usize>, v: Seq<i64>) -> TransExt {
    match c {
        Command::Mov => TransExt::Mov { src: ids[0], dst: ids[1], amount: v[0] },
        Command::Assign => TransExt::Assign { amount: v[0], dst: ids[0] },
        Command::Tra => TransExt::Tra { src: ids[0], dst: ids[1], sub: v[0], add: v[1] },
        Command::Dec => TransExt::Dec { asset: ids[0], amount: v[0] },
        Command::Pri => TransExt::Pri { asset: ids[0], amount: v[0], worth: v[1] },
        Command::Pin => TransExt::Pin { asset: ids[0], amount: v[0], worth: v[1] },
        Command::Con => TransExt::Con {
            src: ids[0],
            dst: ids[1],
            src_amount: v[0],
            dst_amount: v[1],
        },
        Command::Ass => TransExt::Ass { account: ids[0] },
        Command::Deb => TransExt::Deb { account: ids[0] },
    }
}

impl Pending {
    /// The names and amounts match the command.
    pub open spec fn wf(&self) -> bool {
        &&& self.ids@.len() == name_fields(self.command).len()
        &&& self.amounts@.len() == amount_fields(self.command).len()
    }

    /// The transaction, given the values of the amounts in order; the tags
    /// are interned in `nb`.
    pub fn complete(self, values: &[i64], nb: &mut NameBank) -> (r: Trans)
        requires
            self.wf(),
            values@.len() == self.amounts@.len(),
            old(nb).spaces_wf(),
        ensures
            final(nb).spaces_wf(),
            old(nb).wf() ==> final(nb).wf(),
            final(nb).tags_view() == intern_all(old(nb).tags_view(), texts(self.tags@)),
            final(nb).accounts_view() == old(nb).accounts_view(),
            final(nb).assets_view() == old(nb).assets_view(),
            r.date == self.date,
            r.ext == ext_of(self.command, self.ids@, values@),
            r.tags@.len() == self.tags@.len(),
            forall|k: int|
                0 <= k < r.tags@.len() ==> #[trigger] r.tags@[k] < final(nb).tags_view().len()
                    && final(nb).tags_view()[r.tags@[k] as int] == self.tags@[k]@,
    {
        let ids = &self.ids;
        let ext = match self.command {
            Command::Mov => TransExt::Mov { src: ids[0], dst: ids[1], amount: values[0] },
            Command::Assign => TransExt::Assign { amount: values[0], dst: ids[0] },
            Command::Tra => TransExt::Tra { src: ids[0], dst: ids[1], sub: values[0], add: values[1] },
            Command::Dec => TransExt::Dec { asset: ids[0], amount: values[0] },
            Command::Pri => TransExt::Pri { asset: ids[0], amount: values[0], worth: values[1] },
            Command::Pin => TransExt::Pin { asset: ids[0], amount: values[0], worth: values[1] },
            Command::Con => TransExt::Con {
                src: ids[0],
                dst: ids[1],
                src_amount: values[0],
                dst_amount: values[1],
            },
            Command::Ass => TransExt::Ass { account: ids[0] },
            Command::Deb => TransExt::Deb { account: ids[0] },
        };
        let ghost all = texts(self.tags@);
        let ghost tags0 = nb.tags_view();
        let mut tag_ids: Vec<usize> = Vec::new();
        let mut k: usize = 0;
        proof {
            assert(all.subrange(0, 0) =~= Seq::<Seq<char>>::empty());
        }
        while k < self.tags.len()
            invariant
                k <= self.tags@.len() == all.len(),
                all == texts(self.tags@),
                nb.spaces_wf(),
                old(nb).wf() ==> nb.wf(),
                nb.tags_view() == intern_all(tags0, all.subrange(0, k as int)),
                nb.accounts_view() == old(nb).accounts_view(),
                nb.assets_view() == old(nb).assets_view(),
                tags0 == old(nb).tags_view(),
                tag_ids@.len() == k,
                forall|j: int|
                    0 <= j < k ==> #[trigger] tag_ids@[j] < nb.tags_view().len()
                        && nb.tags_view()[tag_ids@[j] as int] == self.tags@[j]@,
            decreases self.tags.len() - k,
        {
            let ghost before = nb.tags_view();
            let id = nb.tag_id(self.tags[k].clone());
            proof {
                lemma_interned_extends(before, self.tags@[k as int]@);
                assert(all.subrange(0, k + 1).drop_last() =~= all.subrange(0, k as int));
                assert(all[k as int] == self.tags@[k as int]@);
            }
            tag_ids.push(id);
            k += 1;
        }
        proof {
            assert(all.subrange(0, all.len() as int) =~= all);
        }
        Trans { date: self.date, tags: tag_ids, ext }
    }
}

} // verus!
