//! Vocabularies and random generation of the target text.
use vstd::prelude::*;

verus! {

#[verifier::external_type_specification]
#[verifier::external_body]
pub struct ExRng(fastrand::Rng);

/// The vocabularies the test can draw from.
#[derive(Clone, Copy, Debug, PartialEq, Eq, Structural)]
pub enum Language {
    English1k,
}

impl Language {
    /// The word list of this language: one word per line.
    pub open spec fn spec_word_list(self) -> &'static str {
        match self {
            Language::English1k => ENGLISH_1K,
        }
    }

    /// The word list of this language: one word per line.
    #[verifier::when_used_as_spec(spec_word_list)]
    pub fn word_list(self) -> (r: &'static str)
        ensures
            r == self.spec_word_list(),
    {
        match self {
            Language::English1k => ENGLISH_1K,
        }
    }
}

/// A word list that holds no word.
#[derive(Clone, Copy, Debug, PartialEq, Eq, Structural)]
pub enum VocabularyLoadError {
    NoWords,
}

/// The lines of a text, as `str::lines` splits it.
pub uninterp spec fn lines_of_text(s: Seq<char>) -> Seq<Seq<char>>;

/// Relies on str::lines: splits the text at `\n` and `\r\n`, the result
/// being a function of the text alone.
#[verifier::external_body]
fn lines<'a>(s: &'a str) -> (r: Vec<&'a str>)
    ensures
        r@.map_values(|w: &str| w@) == lines_of_text(s@),
{
    s.lines().collect()
}

/// The non-empty entries of a list of lines, in order.
pub open spec fn non_empty(lines: Seq<Seq<char>>) -> Seq<Seq<char>>
    decreases lines.len(),
{
    if lines.len() == 0 {
        Seq::empty()
    } else if lines.last().len() > 0 {
        non_empty(lines.drop_last()).push(lines.last())
    } else {
        non_empty(lines.drop_last())
    }
}

/// A non-empty list of non-empty words.
pub struct Vocabulary<'a> {
    words: Vec<&'a str>,
}

impl<'a> Vocabulary<'a> {
    /// The texts of the words.
    pub closed spec fn spec_words(&self) -> Seq<Seq<char>> {
        self.words@.map_values(|w: &str| w@)
    }

    /// There is a word, and no word is empty.
    pub closed spec fn wf(&self) -> bool {
        self.words@.len() > 0 && forall|k: int| 0 <= k < self.words@.len() ==> (#[trigger] self.words@[k])@.len() > 0
    }

    /// Loads the non-empty lines of `text` as words; fails when there is none.
    pub fn load(text: &'a str) -> (r: Result<Vocabulary<'a>, VocabularyLoadError>)
        ensures
            r is Ok <==> non_empty(lines_of_text(text@)).len() > 0,
            r is Ok ==> r->Ok_0.wf() && r->Ok_0.spec_words() == non_empty(lines_of_text(text@)),
            r is Err ==> r == Err::<Vocabulary<'a>, VocabularyLoadError>(VocabularyLoadError::NoWords),
    {
        let all = lines(text);
        let ghost texts = all@.map_values(|w: &str| w@);
        let mut words: Vec<&'a str> = Vec::new();
        let mut k: usize = 0;
        while k < all.len()
            invariant
                k <= all@.len(),
                texts == all@.map_values(|w: &str| w@),
                words@.map_values(|w: &str| w@) == non_empty(texts.take(k as int)),
                forall|j: int| 0 <= j < words@.len() ==> (#[trigger] words@[j])@.len() > 0,
            decreases all@.len() - k,
        {
            let ghost before = words@;
            let w = all[k];
            assert(texts.take(k + 1).drop_last() =~= texts.take(k as int));
            if !w.is_empty() {
                words.push(w);
                assert(words@.map_values(|w: &str| w@) =~= before.map_values(|w: &str| w@).push(w@));
            }
            k = k + 1;
        }
        assert(texts.take(k as int) =~= texts);
        if words.len() == 0 {
            Err(VocabularyLoadError::NoWords)
        } else {
            Ok(Vocabulary { words })
        }
    }

    /// The words, in the order of the list.
    pub fn words(&self) -> (r: &[&'a str])
        requires
            self.wf(),
        ensures
            r@.len() > 0,
            r@.map_values(|w: &str| w@) == self.spec_words(),
    {
        self.words.as_slice()
    }
}

/// Relies on fastrand::usize: for the range `..n` it returns a value below
/// `n`; it panics on an empty range, which `n > 0` rules out.
#[verifier::external_body]
fn random_below(n: usize) -> (r: usize)
    requires
        n > 0,
    ensures
        r < n,
{
    fastrand::usize(..n)
}

/// Relies on fastrand::Rng::usize: for the range `..n` it returns a value
/// below `n` and advances the generator; it panics on an empty range, which
/// `n > 0` rules out.
#[verifier::external_body]
fn random_below_with(rng: &mut fastrand::Rng, n: usize) -> (r: usize)
    requires
        n > 0,
    ensures
        r < n,
{
    rng.usize(..n)
}

/// Every index in `indices` points into a list of `n` words.
pub open spec fn indices_below(indices: Seq<usize>, n: nat) -> bool {
    forall|k: int| 0 <= k < indices.len() ==> #[trigger] indices[k] < n
}

/// The words of `word_list` at the positions `indices`, in that order.
pub open spec fn picked<'a>(word_list: Seq<&'a str>, indices: Seq<usize>) -> Seq<&'a str>
    recommends
        indices_below(indices, word_list.len()),
{
    indices.map_values(|i: usize| word_list[i as int])
}

/// `r` is `length` words drawn from `word_list`, each slot on its own.
pub open spec fn is_drawn_from<'a>(r: Seq<&'a str>, word_list: Seq<&'a str>, length: nat) -> bool {
    exists|indices: Seq<usize>|
        indices.len() == length && indices_below(indices, word_list.len()) && r == #[trigger] picked(
            word_list,
            indices,
        )
}

/// The words at the given positions: the same positions always give the same text.
pub fn words_at<'a>(word_list: &[&'a str], indices: &[usize]) -> (r: Vec<&'a str>)
    requires
        indices_below(indices@, word_list@.len()),
    ensures
        r@ == picked(word_list@, indices@),
{
    let mut r: Vec<&'a str> = Vec::with_capacity(indices.len());
    let mut k: usize = 0;
    while k < indices.len()
        invariant
            indices_below(indices@, word_list@.len()),
            k <= indices@.len(),
            r@ == picked(word_list@, indices@.take(k as int)),
        decreases indices@.len() - k,
    {
        let i = indices[k];
        r.push(word_list[i]);
        k = k + 1;
        assert(r@ =~= picked(word_list@, indices@.take(k as int)));
    }
    assert(indices@.take(k as int) =~= indices@);
    r
}

/// Draws `length` words from `word_list`, uniformly and with replacement.
pub fn generate_string_from_word_list<'a>(word_list: &[&'a str], length: usize) -> (r: Vec<&'a str>)
    requires
        word_list@.len() > 0,
    ensures
        is_drawn_from(r@, word_list@, length as nat),
{
    let mut indices: Vec<usize> = Vec::with_capacity(length);
    let mut k: usize = 0;
    while k < length
        invariant
            k <= length,
            indices@.len() == k,
            word_list@.len() > 0,
            indices_below(indices@, word_list@.len()),
        decreases length - k,
    {
        indices.push(random_below(word_list.len()));
        k = k + 1;
    }
    let r = words_at(word_list, indices.as_slice());
    assert(r@ == picked(word_list@, indices@));
    r
}

/// Draws `length` words from `word_list` with the given generator, so that
/// a generator made from a fixed seed gives a reproducible text.
pub fn generate_string_with_rng<'a>(rng: &mut fastrand::Rng, word_list: &[&'a str], length: usize) -> (r: Vec<&'a str>)
    requires
        word_list@.len() > 0,
    ensures
        is_drawn_from(r@, word_list@, length as nat),
{
    let mut indices: Vec<usize> = Vec::with_capacity(length);
    let mut k: usize = 0;
    while k < length
        invariant
            k <= length,
            indices@.len() == k,
            word_list@.len() > 0,
            indices_below(indices@, word_list@.len()),
        decreases length - k,
    {
        indices.push(random_below_with(rng, word_list.len()));
        k = k + 1;
    }
    let r = words_at(word_list, indices.as_slice());
    assert(r@ == picked(word_list@, indices@));
    r
}

/// Draws `length` words from the vocabulary of `language`; fails when its
/// word list holds no word.
pub fn generate_string(language: Language, length: usize) -> (r: Result<Vec<&'static str>, VocabularyLoadError>)
    ensures
        r is Ok <==> non_empty(lines_of_text(language.word_list()@)).len() > 0,
        r is Ok ==> r->Ok_0@.len() == length && forall|k: int|
            0 <= k < length ==> non_empty(lines_of_text(language.word_list()@)).contains(
                (#[trigger] r->Ok_0@[k])@,
            ),
{
    match Vocabulary::load(language.word_list()) {
        Err(e) => Err(e),
        Ok(vocabulary) => {
            let words = vocabulary.words();
            let r = generate_string_from_word_list(words, length);
            proof {
                let indices = choose|indices: Seq<usize>|
                    indices.len() == length && indices_below(indices, words@.len()) && r@
                        == #[trigger] picked(words@, indices);
                assert forall|k: int| 0 <= k < length implies non_empty(
                    lines_of_text(language.word_list()@),
                ).contains((#[trigger] r@[k])@) by {
                    let j = indices[k] as int;
                    assert(r@[k] == words@[j]);
                    assert(words@.map_values(|w: &str| w@)[j] == words@[j]@);
                }
            }
            Ok(r)
        },
    }
}

/// About a thousand common English words, one per line.
pub const ENGLISH_1K: &'static str = "the\nof\nto\nand\na\nin\nis\nit\nyou\nthat\nhe\nwas\n\
    for\non\nare\nwith\nas\ni\nhis\nthey\nbe\nat\none\nhave\n\
    this\nfrom\nor\nhad\nby\nnot\nword\nbut\nwhat\nsome\nwe\ncan\n\
    out\nother\nwere\nall\nthere\nwhen\nup\nuse\nyour\nhow\nsaid\nan\n\
    each\nshe\nwhich\ndo\ntheir\ntime\nif\nwill\nway\nabout\nmany\nthen\n\
    them\nwrite\nwould\nlike\nso\nthese\nher\nlong\nmake\nthing\nsee\nhim\n\
    two\nhas\nlook\nmore\nday\ncould\ngo\ncome\ndid\nnumber\nsound\nno\n\
    most\npeople\nmy\nover\nknow\nwater\nthan\ncall\nfirst\nwho\nmay\ndown\n\
    side\nbeen\nnow\nfind\nany\nnew\nwork\npart\ntake\nget\nplace\nmade\n\
    live\nwhere\nafter\nback\nlittle\nonly\nround\nman\nyear\ncame\nshow\nevery\n\
    good\nme\ngive\nour\nunder\nname\nvery\nthrough\njust\nform\nsentence\ngreat\n\
    think\nsay\nhelp\nlow\nline\ndiffer\nturn\ncause\nmuch\nmean\nbefore\nmove\n\
    right\nboy\nold\ntoo\nsame\ntell\ndoes\nset\nthree\nwant\nair\nwell\n\
    also\nplay\nsmall\nend\nput\nhome\nread\nhand\nport\nlarge\nspell\nadd\n\
    even\nland\nhere\nmust\nbig\nhigh\nsuch\nfollow\nact\nwhy\nask\nmen\n\
    change\nwent\nlight\nkind\noff\nneed\nhouse\npicture\ntry\nus\nagain\nanimal\n\
    point\nmother\nworld\nnear\nbuild\nself\nearth\nfather\nhead\nstand\nown\npage\n\
    should\ncountry\nfound\nanswer\nschool\ngrow\nstudy\nstill\nlearn\nplant\ncover\nfood\n\
    sun\nfour\nbetween\nstate\nkeep\neye\nnever\nlast\nlet\nthought\ncity\ntree\n\
    cross\nfarm\nhard\nstart\nmight\nstory\nsaw\nfar\nsea\ndraw\nleft\nlate\n\
    run\nwhile\npress\nclose\nnight\nreal\nlife\nfew\nnorth\nopen\nseem\ntogether\n\
    next\nwhite\nchildren\nbegin\ngot\nwalk\nexample\nease\npaper\ngroup\nalways\nmusic\n\
    those\nboth\nmark\noften\nletter\nuntil\nmile\nriver\ncar\nfeet\ncare\nsecond\n\
    book\ncarry\ntook\nscience\neat\nroom\nfriend\nbegan\nidea\nfish\nmountain\nstop\n\
    once\nbase\nhear\nhorse\ncut\nsure\nwatch\ncolor\nface\nwood\nmain\nenough\n\
    plain\ngirl\nusual\nyoung\nready\nabove\never\nred\nlist\nthough\nfeel\ntalk\n\
    bird\nsoon\nbody\ndog\nfamily\ndirect\npose\nleave\nsong\nmeasure\ndoor\nproduct\n\
    black\nshort\nnumeral\nclass\nwind\nquestion\nhappen\ncomplete\nship\narea\nhalf\nrock\n\
    order\nfire\nsouth\nproblem\npiece\ntold\nknew\npass\nsince\ntop\nwhole\nking\n\
    space\nheard\nbest\nhour\nbetter\ntrue\nduring\nhundred\nfive\nremember\nstep\nearly\n\
    hold\nwest\nground\ninterest\nreach\nfast\nverb\nsing\nlisten\nsix\ntable\ntravel\n\
    less\nmorning\nten\nsimple\nseveral\nvowel\ntoward\nwar\nlay\nagainst\npattern\nslow\n\
    center\nlove\nperson\nmoney\nserve\nappear\nroad\nmap\nrain\nrule\ngovern\npull\n\
    cold\nnotice\nvoice\nunit\npower\ntown\nfine\ncertain\nfly\nfall\nlead\ncry\n\
    dark\nmachine\nnote\nwait\nplan\nfigure\nstar\nbox\nnoun\nfield\nrest\ncorrect\n\
    able\npound\ndone\nbeauty\ndrive\nstood\ncontain\nfront\nteach\nweek\nfinal\ngave\n\
    green\noh\nquick\ndevelop\nocean\nwarm\nfree\nminute\nstrong\nspecial\nmind\nbehind\n\
    clear\ntail\nproduce\nfact\nstreet\ninch\nmultiply\nnothing\ncourse\nstay\nwheel\nfull\n\
    force\nblue\nobject\ndecide\nsurface\ndeep\nmoon\nisland\nfoot\nsystem\nbusy\ntest\n\
    record\nboat\ncommon\ngold\npossible\nplane\nstead\ndry\nwonder\nlaugh\nthousand\nago\n\
    ran\ncheck\ngame\nshape\nequate\nhot\nmiss\nbrought\nheat\nsnow\ntire\nbring\n\
    yes\ndistant\nfill\neast\npaint\nlanguage\namong\ngrand\nball\nyet\nwave\ndrop\n\
    heart\nam\npresent\nheavy\ndance\nengine\nposition\narm\nwide\nsail\nmaterial\nsize\n\
    vary\nsettle\nspeak\nweight\ngeneral\nice\nmatter\ncircle\npair\ndivide\nsyllable\n\
    felt\nperhaps\npick\nsudden\ncount\nsquare\nreason\nlength\nrepresent\nart\nsubject\nregion\n\
    energy\nhunt\nprobable\nbed\nbrother\negg\nride\ncell\nbelieve\nfraction\nforest\nsit\n\
    race\nwindow\nstore\nsummer\ntrain\nsleep\nprove\nlone\nleg\nexercise\nwall\ncatch\n\
    mount\nwish\nsky\nboard\njoy\nwinter\nsat\nwritten\nwild\ninstrument\nkept\nglass\n\
    grass\ncow\njob\nedge\nsign\nvisit\npast\nsoft\nfun\nbright\ngas\nweather\n\
    month\nmillion\nbear\nfinish\nhappy\nhope\nflower\nclothe\nstrange\ngone\njump\nbaby\n\
    eight\nvillage\nmeet\nroot\nbuy\nraise\nsolve\nmetal\nwhether\npush\nseven\nparagraph\n\
    third\nshall\nheld\nhair\ndescribe\ncook\nfloor\neither\nresult\nburn\nhill\nsafe\n\
    cat\ncentury\nconsider\ntype\nlaw\nbit\ncoast\ncopy\nphrase\nsilent\ntall\nsand\n\
    soil\nroll\ntemperature\nfinger\nindustry\nvalue\nfight\nlie\nbeat\nexcite\nnatural\nview\n\
    sense\near\nelse\nquite\nbroke\ncase\nmiddle\nkill\nson\nlake\nmoment\nscale\n\
    loud\nspring\nobserve\nchild\nstraight\nconsonant\nnation\ndictionary\nmilk\nspeed\nmethod\norgan\n\
    pay\nage\nsection\ndress\ncloud\nsurprise\nquiet\nstone\ntiny\nclimb\ncool\ndesign\n\
    poor\nlot\nexperiment\nbottom\nkey\niron\nsingle\nstick\nflat\ntwenty\nskin\nsmile\n\
    crease\nhole\ntrade\nmelody\ntrip\noffice\nreceive\nrow\nmouth\nexact\nsymbol\ndie\n\
    least\ntrouble\nshout\nexcept\nwrote\nseed\ntone\njoin\nsuggest\nclean\nbreak\nlady\n\
    yard\nrise\nbad\nblow\noil\nblood\ntouch\ngrew\ncent\nmix\nteam\nwire\n\
    cost\nlost\nbrown\nwear\ngarden\nequal\nsent\nchoose\nfell\nfit\nflow\nfair\n\
    bank\ncollect\nsave\ncontrol\ndecimal\ngentle\nwoman\ncaptain\npractice\nseparate\ndifficult\ndoctor\n\
    please\nprotect\nnoon\nwhose\nlocate\nring\ncharacter\ninsect\ncaught\nperiod\nindicate\nradio\n\
    spoke\natom\nhuman\nhistory\neffect\nelectric\nexpect\ncrop\nmodern\nelement\nhit\nstudent\n\
    corner\nparty\nsupply\nbone\nrail\nimagine\nprovide\nagree\nthus\ncapital\nchair\ndanger\n\
    fruit\nrich\nthick\nsoldier\nprocess\noperate\nguess\nnecessary\nsharp\nwing\ncreate\nneighbor\n\
    wash\nbat\nrather\ncrowd\ncorn\ncompare\npoem\nstring\nbell\ndepend\nmeat\nrub\n\
    tube\nfamous\ndollar\nstream\nfear\nsight\nthin\ntriangle\nplanet\nhurry\nchief\ncolony\n\
    clock\nmine\ntie\nenter\nmajor\nfresh\nsearch\nsend\nyellow\ngun\nallow\nprint\n\
    dead\nspot\ndesert\nsuit\ncurrent\nlift\nrose\ncontinue\nblock\nchart\nhat\nsell\n\
    success\ncompany\nsubtract\nevent\nparticular\ndeal\nswim\nterm\nopposite\nwife\nshoe\nshoulder\n\
    spread\narrange\ncamp\ninvent\ncotton\nborn\ndetermine\nquart\nnine\ntruck\nnoise\nlevel\n\
    chance\ngather\nshop\nstretch\nthrow\nshine\nproperty\ncolumn\nmolecule\nselect\nwrong\ngray\n\
    repeat\nrequire\nbroad\nprepare\nsalt\nnose\nplural\nanger\nclaim\ncontinent\noxygen\nsugar\n\
    death\npretty\nskill\nwomen\nseason\nsolution\nmagnet\nsilver\nthank\nbranch\nmatch\nsuffix\n\
    especially\nfig\nafraid\nhuge\nsister\nsteel\ndiscuss\nforward\nsimilar\nguide\nexperience\nscore\n\
    apple\nbought\nled\npitch\ncoat\nmass\ncard\nband\nrope\nslip\nwin\ndream\n\
    evening\ncondition\nfeed\ntool\ntotal\nbasic\nsmell\nvalley\nnor\ndouble\nseat\narrive\n\
    master\ntrack\nparent\nshore\ndivision\nsheet\nsubstance\nfavor\nconnect\npost\nspend\nchord\n\
    fat\nglad\noriginal\nshare\nstation\ndad\nbread\ncharge\nproper\nbar\noffer\nsegment\n\
    duck\ninstant\nmarket\ndegree\npopulate\nchick\ndear\nenemy\nreply\ndrink\noccur\n\
    support\nspeech\nnature\nrange\nsteam\nmotion\npath\nliquid\nlog\nmeant\nquotient\nteeth\n\
    shell\nneck";

} // verus!
