use vstd::prelude::*;

verus! {

/// Largest number of characters a reflection's text may have.
pub const MAX_REFLEXAO_CHARS: u32 = 500;

/// Largest number of characters a comment's text may have.
pub const MAX_COMENTARIO_CHARS: u32 = 200;

/// A principal of the ledger: a reader, liker, commenter or the
/// administrator. The host that authenticates callers identifies each
/// principal by a number; the ledger only ever compares principals for
/// equality.
#[derive(Clone, Copy, Eq, Debug)]
pub struct Endereco {
    pub id: u64,
}

impl PartialEq for Endereco {
    fn eq(&self, outro: &Endereco) -> bool {
        self.id == outro.id
    }
}

impl vstd::std_specs::cmp::PartialEqSpecImpl for Endereco {
    open spec fn obeys_eq_spec() -> bool {
        true
    }

    open spec fn eq_spec(&self, outro: &Endereco) -> bool {
        self.id == outro.id
    }
}

/// Identifies one canonical reference text by book, chapter and verse.
#[derive(Clone, Copy, Eq, Debug)]
pub struct IdTexto {
    pub livro: u32,
    pub capitulo: u32,
    pub versiculo: u32,
}

impl PartialEq for IdTexto {
    fn eq(&self, outro: &IdTexto) -> bool {
        self.livro == outro.livro && self.capitulo == outro.capitulo
            && self.versiculo == outro.versiculo
    }
}

impl vstd::std_specs::cmp::PartialEqSpecImpl for IdTexto {
    open spec fn obeys_eq_spec() -> bool {
        true
    }

    open spec fn eq_spec(&self, outro: &IdTexto) -> bool {
        self.livro == outro.livro && self.capitulo == outro.capitulo
            && self.versiculo == outro.versiculo
    }
}

/// Moderation state of one reflection. An entry that was never written
/// counts as `Ativa`.
#[derive(Clone, Copy, PartialEq, Eq, Structural, Debug)]
pub enum StatusReflexao {
    Ativa,
    Removida,
}

/// Every way a call into the ledger can be refused. A refused call leaves
/// the ledger exactly as it was.
#[derive(Clone, Copy, PartialEq, Eq, Structural, Debug)]
pub enum Erro {
    NaoInicializado,
    JaInicializado,
    AutorizacaoNegada,
    ConteudoVazio,
    ConteudoMuitoLongo,
    TextoNaoRegistrado,
    LeituraNaoConfirmada,
    ReflexaoDuplicada,
    ReflexaoNaoEncontrada,
    ReflexaoNaoPublica,
    ReflexaoRemovida,
    IndiceComentarioInvalido,
    NaoAutorDoComentario,
}

/// One principal's note about one text. At most one exists per
/// (author, text); its content never changes, and only the like counter
/// moves after creation.
#[derive(Clone, Debug, PartialEq, Eq)]
pub struct Reflexao {
    pub leitor: Endereco,
    pub id_texto: IdTexto,
    pub conteudo: String,
    pub timestamp: u64,
    pub hash_reflexao: Vec<u8>,
    pub publica: bool,
    pub curtidas: u32,
}

/// The mathematical image of a `Reflexao`: its content as a character
/// sequence and its digest as a byte sequence.
#[verifier::ext_equal]
pub struct VistaReflexao {
    pub leitor: Endereco,
    pub id_texto: IdTexto,
    pub conteudo: Seq<char>,
    pub timestamp: u64,
    pub hash_reflexao: Seq<u8>,
    pub publica: bool,
    pub curtidas: u32,
}

impl View for Reflexao {
    type V = VistaReflexao;

    open spec fn view(&self) -> VistaReflexao {
        VistaReflexao {
            leitor: self.leitor,
            id_texto: self.id_texto,
            conteudo: self.conteudo@,
            timestamp: self.timestamp,
            hash_reflexao: self.hash_reflexao@,
            publica: self.publica,
            curtidas: self.curtidas,
        }
    }
}

impl DeepView for Reflexao {
    type V = VistaReflexao;

    open spec fn deep_view(&self) -> VistaReflexao {
        self.view()
    }
}

/// One comment under a reflection. Comments live in an ordered sequence;
/// removal is positional.
#[derive(Clone, Debug, PartialEq, Eq)]
pub struct Comentario {
    pub autor: Endereco,
    pub conteudo: String,
    pub timestamp: u64,
    pub curtidas: u32,
}

/// The mathematical image of a `Comentario`.
#[verifier::ext_equal]
pub struct VistaComentario {
    pub autor: Endereco,
    pub conteudo: Seq<char>,
    pub timestamp: u64,
    pub curtidas: u32,
}

impl View for Comentario {
    type V = VistaComentario;

    open spec fn view(&self) -> VistaComentario {
        VistaComentario {
            autor: self.autor,
            conteudo: self.conteudo@,
            timestamp: self.timestamp,
            curtidas: self.curtidas,
        }
    }
}

impl DeepView for Comentario {
    type V = VistaComentario;

    open spec fn deep_view(&self) -> VistaComentario {
        self.view()
    }
}

/// A byte-for-byte copy.
pub(crate) fn clonar_bytes(dados: &Vec<u8>) -> (r: Vec<u8>)
    ensures
        r@ == dados@,
{
    let mut copia: Vec<u8> = Vec::new();
    let mut i: usize = 0;
    while i < dados.len()
        invariant
            i <= dados@.len(),
            copia@ == dados@.subrange(0, i as int),
        decreases dados@.len() - i,
    {
        copia.push(dados[i]);
        i = i + 1;
    }
    proof {
        assert(copia@ =~= dados@);
    }
    copia
}

impl Reflexao {
    /// An identical copy, field for field.
    pub fn duplicar(&self) -> (r: Reflexao)
        ensures
            r@ == self@,
    {
        Reflexao {
            leitor: self.leitor,
            id_texto: self.id_texto,
            conteudo: self.conteudo.clone(),
            timestamp: self.timestamp,
            hash_reflexao: clonar_bytes(&self.hash_reflexao),
            publica: self.publica,
            curtidas: self.curtidas,
        }
    }
}

impl Comentario {
    /// An identical copy, field for field.
    pub fn duplicar(&self) -> (r: Comentario)
        ensures
            r@ == self@,
    {
        Comentario {
            autor: self.autor,
            conteudo: self.conteudo.clone(),
            timestamp: self.timestamp,
            curtidas: self.curtidas,
        }
    }
}

/// Exec equality on `Endereco` agrees with mathematical equality.
pub proof fn lema_endereco_eq_concreto()
    ensures
        vstd::laws_eq::obeys_concrete_eq::<Endereco>(),
{
    reveal(vstd::laws_eq::obeys_concrete_eq);
}

/// Exec equality on `IdTexto` agrees with mathematical equality.
pub proof fn lema_id_texto_eq_concreto()
    ensures
        vstd::laws_eq::obeys_concrete_eq::<IdTexto>(),
{
    reveal(vstd::laws_eq::obeys_concrete_eq);
}

/// All the key types the ledger's tables use compare faithfully.
pub proof fn lema_chaves_fieis()
    ensures
        vstd::laws_eq::obeys_concrete_eq::<u32>(),
        vstd::laws_eq::obeys_concrete_eq::<Endereco>(),
        vstd::laws_eq::obeys_concrete_eq::<IdTexto>(),
        vstd::laws_eq::obeys_concrete_eq::<(Endereco, IdTexto)>(),
        vstd::laws_eq::obeys_concrete_eq::<(Endereco, u32)>(),
        vstd::laws_eq::obeys_concrete_eq::<(IdTexto, u32)>(),
        vstd::laws_eq::obeys_concrete_eq::<(IdTexto, Endereco)>(),
        vstd::laws_eq::obeys_concrete_eq::<(IdTexto, Endereco, Endereco)>(),
{
    broadcast use vstd::laws_eq::group_laws_eq;

    lema_endereco_eq_concreto();
    lema_id_texto_eq_concreto();
}

} // verus!
