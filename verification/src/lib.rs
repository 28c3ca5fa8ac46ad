//! A permissioned ledger over canonical reference texts: it checks texts
//! against registered SHA-256 digests, records which principal has read
//! which text, and hosts a social layer of personal reflections, public
//! listings, likes and comments gated by that reading record.
//!
//! The execution host that authenticates callers, persists state and
//! supplies the clock stands outside: every operation here takes the
//! acting principal and the current time as plain values and works on an
//! in-memory state, and a refused call leaves that state untouched.

pub mod digesto;
pub mod reflexoes;
pub mod tabela;
pub mod types;

pub use digesto::digesto_sha256;
pub use types::{Comentario, Endereco, Erro, IdTexto, Reflexao, StatusReflexao, VistaComentario,
    VistaReflexao, MAX_COMENTARIO_CHARS, MAX_REFLEXAO_CHARS};

use crate::digesto::calcular_sha256;
use crate::tabela::{chaves_unicas, definir, indice_de, lema_indice_da_chave, tem_chave,
    valor_da_chave};
use crate::types::lema_chaves_fieis;
use vstd::prelude::*;

verus! {

/// The whole state of the ledger: the administrator and one table per
/// concern, each keyed by the composite tuples the host would use.
pub struct ContratoBiblia {
    pub admin: Option<Endereco>,
    pub hashes: Vec<(IdTexto, Vec<u8>)>,
    pub leituras: Vec<((Endereco, IdTexto), ())>,
    pub progresso: Vec<((Endereco, u32), u32)>,
    pub metas_livros: Vec<(u32, u32)>,
    pub reflexoes: Vec<((IdTexto, Endereco), Reflexao)>,
    pub contadores: Vec<(IdTexto, u32)>,
    pub indice_publico: Vec<((IdTexto, u32), Endereco)>,
    pub curtidas: Vec<((IdTexto, Endereco, Endereco), ())>,
    pub comentarios: Vec<((IdTexto, Endereco), Vec<Comentario>)>,
    pub status: Vec<((IdTexto, Endereco), StatusReflexao)>,
}

impl ContratoBiblia {
    /// Every table maps each key to at most one entry.
    pub open spec fn bem_formado(self) -> bool {
        &&& chaves_unicas(self.hashes@)
        &&& chaves_unicas(self.leituras@)
        &&& chaves_unicas(self.progresso@)
        &&& chaves_unicas(self.metas_livros@)
        &&& chaves_unicas(self.reflexoes@)
        &&& chaves_unicas(self.contadores@)
        &&& chaves_unicas(self.indice_publico@)
        &&& chaves_unicas(self.curtidas@)
        &&& chaves_unicas(self.comentarios@)
        &&& chaves_unicas(self.status@)
    }

    /// Nothing has been written yet.
    pub open spec fn estado_inicial(self) -> bool {
        &&& self.admin is None
        &&& self.hashes@.len() == 0
        &&& self.leituras@.len() == 0
        &&& self.progresso@.len() == 0
        &&& self.metas_livros@.len() == 0
        &&& self.reflexoes@.len() == 0
        &&& self.contadores@.len() == 0
        &&& self.indice_publico@.len() == 0
        &&& self.curtidas@.len() == 0
        &&& self.comentarios@.len() == 0
        &&& self.status@.len() == 0
    }

    /// An administrator has been configured.
    pub open spec fn inicializado(self) -> bool {
        self.admin is Some
    }

    /// The configured administrator.
    pub open spec fn admin_de(self) -> Endereco {
        self.admin.unwrap()
    }

    /// A digest is registered for this text.
    pub open spec fn hash_registrado(self, t: IdTexto) -> bool {
        tem_chave(self.hashes@, t)
    }

    /// The digest registered for this text.
    pub open spec fn hash_de(self, t: IdTexto) -> Seq<u8> {
        valor_da_chave(self.hashes@, t)@
    }

    /// This principal has marked this text as read.
    pub open spec fn leitura_marcada(self, leitor: Endereco, t: IdTexto) -> bool {
        tem_chave(self.leituras@, (leitor, t))
    }

    /// How many distinct texts of this book the principal has read.
    pub open spec fn progresso_de(self, leitor: Endereco, livro: u32) -> u32 {
        if tem_chave(self.progresso@, (leitor, livro)) {
            valor_da_chave(self.progresso@, (leitor, livro))
        } else {
            0
        }
    }

    /// The verse total registered for this book.
    pub open spec fn meta_do_livro(self, livro: u32) -> u32 {
        if tem_chave(self.metas_livros@, livro) {
            valor_da_chave(self.metas_livros@, livro)
        } else {
            0
        }
    }

    /// A reflection by this author about this text exists.
    pub open spec fn tem_reflexao(self, t: IdTexto, autor: Endereco) -> bool {
        tem_chave(self.reflexoes@, (t, autor))
    }

    /// The reflection by this author about this text.
    pub open spec fn reflexao_de(self, t: IdTexto, autor: Endereco) -> VistaReflexao {
        valor_da_chave(self.reflexoes@, (t, autor))@
    }

    /// How many reflections about this text have ever been published.
    pub open spec fn contador_publico(self, t: IdTexto) -> u32 {
        if tem_chave(self.contadores@, t) {
            valor_da_chave(self.contadores@, t)
        } else {
            0
        }
    }

    /// Sequence number `i` of this text's public index carries an author.
    pub open spec fn publicado(self, t: IdTexto, i: u32) -> bool {
        tem_chave(self.indice_publico@, (t, i))
    }

    /// The author at sequence number `i` of this text's public index.
    pub open spec fn autor_publicado(self, t: IdTexto, i: u32) -> Endereco {
        valor_da_chave(self.indice_publico@, (t, i))
    }

    /// This liker currently likes this author's reflection on this text.
    pub open spec fn curtiu(self, t: IdTexto, autor: Endereco, curtidor: Endereco) -> bool {
        tem_chave(self.curtidas@, (t, autor, curtidor))
    }

    /// The comments under this author's reflection, in insertion order.
    pub open spec fn comentarios_de(self, t: IdTexto, autor: Endereco) -> Seq<VistaComentario> {
        if tem_chave(self.comentarios@, (t, autor)) {
            valor_da_chave(self.comentarios@, (t, autor)).deep_view()
        } else {
            Seq::empty()
        }
    }

    /// The moderation status of this author's reflection; never written
    /// means active.
    pub open spec fn status_de(self, t: IdTexto, autor: Endereco) -> StatusReflexao {
        if tem_chave(self.status@, (t, autor)) {
            valor_da_chave(self.status@, (t, autor))
        } else {
            StatusReflexao::Ativa
        }
    }
}

/// The two states agree everywhere but possibly the administrator.
pub open spec fn so_difere_admin(a: ContratoBiblia, b: ContratoBiblia) -> bool {
    &&& a.hashes == b.hashes
    &&& a.leituras == b.leituras
    &&& a.progresso == b.progresso
    &&& a.metas_livros == b.metas_livros
    &&& a.reflexoes == b.reflexoes
    &&& a.contadores == b.contadores
    &&& a.indice_publico == b.indice_publico
    &&& a.curtidas == b.curtidas
    &&& a.comentarios == b.comentarios
    &&& a.status == b.status
}

/// The two states agree everywhere but possibly the digest registry.
pub open spec fn so_difere_hashes(a: ContratoBiblia, b: ContratoBiblia) -> bool {
    &&& a.admin == b.admin
    &&& a.leituras == b.leituras
    &&& a.progresso == b.progresso
    &&& a.metas_livros == b.metas_livros
    &&& a.reflexoes == b.reflexoes
    &&& a.contadores == b.contadores
    &&& a.indice_publico == b.indice_publico
    &&& a.curtidas == b.curtidas
    &&& a.comentarios == b.comentarios
    &&& a.status == b.status
}

/// The two states agree everywhere but possibly the reading ledger and the
/// per-book progress counters.
pub open spec fn so_difere_leituras(a: ContratoBiblia, b: ContratoBiblia) -> bool {
    &&& a.admin == b.admin
    &&& a.hashes == b.hashes
    &&& a.metas_livros == b.metas_livros
    &&& a.reflexoes == b.reflexoes
    &&& a.contadores == b.contadores
    &&& a.indice_publico == b.indice_publico
    &&& a.curtidas == b.curtidas
    &&& a.comentarios == b.comentarios
    &&& a.status == b.status
}

/// The two states agree everywhere but possibly the book verse totals.
pub open spec fn so_difere_metas(a: ContratoBiblia, b: ContratoBiblia) -> bool {
    &&& a.admin == b.admin
    &&& a.hashes == b.hashes
    &&& a.leituras == b.leituras
    &&& a.progresso == b.progresso
    &&& a.reflexoes == b.reflexoes
    &&& a.contadores == b.contadores
    &&& a.indice_publico == b.indice_publico
    &&& a.curtidas == b.curtidas
    &&& a.comentarios == b.comentarios
    &&& a.status == b.status
}

/// The check in front of every administrator-only write.
pub open spec fn erro_autorizacao_admin(s: ContratoBiblia, chamador: Endereco) -> Option<Erro> {
    if !s.inicializado() {
        Some(Erro::NaoInicializado)
    } else if chamador != s.admin_de() {
        Some(Erro::AutorizacaoNegada)
    } else {
        None
    }
}

/// After a `marcar_lido` call: the pair is recorded; a first marking also
/// advances the book's progress counter by one, a repeated one changes
/// nothing at all.
pub open spec fn pos_marcar_lido(
    s0: ContratoBiblia,
    s1: ContratoBiblia,
    leitor: Endereco,
    t: IdTexto,
) -> bool {
    &&& s1.leitura_marcada(leitor, t)
    &&& if s0.leitura_marcada(leitor, t) {
        s1 == s0
    } else {
        &&& forall|l2: Endereco, t2: IdTexto|
            (l2, t2) != (leitor, t) ==> #[trigger] s1.leitura_marcada(l2, t2)
                == s0.leitura_marcada(l2, t2)
        &&& s1.progresso_de(leitor, t.livro) == s0.progresso_de(leitor, t.livro) + 1
        &&& forall|l2: Endereco, livro: u32|
            (l2, livro) != (leitor, t.livro) ==> #[trigger] s1.progresso_de(l2, livro)
                == s0.progresso_de(l2, livro)
        &&& so_difere_leituras(s0, s1)
    }
}

impl ContratoBiblia {
    /// A fresh ledger with nothing written.
    pub fn new() -> (r: ContratoBiblia)
        ensures
            r.bem_formado(),
            r.estado_inicial(),
    {
        ContratoBiblia {
            admin: None,
            hashes: Vec::new(),
            leituras: Vec::new(),
            progresso: Vec::new(),
            metas_livros: Vec::new(),
            reflexoes: Vec::new(),
            contadores: Vec::new(),
            indice_publico: Vec::new(),
            curtidas: Vec::new(),
            comentarios: Vec::new(),
            status: Vec::new(),
        }
    }

    /// Configures the administrator, once; a second call is refused.
    pub fn initialize(&mut self, admin: Endereco) -> (r: Result<(), Erro>)
        requires
            old(self).bem_formado(),
        ensures
            final(self).bem_formado(),
            match r {
                Ok(()) => {
                    &&& !old(self).inicializado()
                    &&& final(self).admin == Some(admin)
                    &&& so_difere_admin(*old(self), *final(self))
                },
                Err(e) => {
                    &&& e == Erro::JaInicializado
                    &&& old(self).inicializado()
                    &&& *final(self) == *old(self)
                },
            },
    {
        if self.admin.is_some() {
            return Err(Erro::JaInicializado);
        }
        self.admin = Some(admin);
        Ok(())
    }

    /// Registers (or overwrites) the digest of a text. Only the configured
    /// administrator may do this; the digest of every other text stays as
    /// it was.
    pub fn registrar_hash(&mut self, chamador: Endereco, id_texto: IdTexto, hash: Vec<u8>) -> (r:
        Result<(), Erro>)
        requires
            old(self).bem_formado(),
            hash@.len() == 32,
        ensures
            final(self).bem_formado(),
            match r {
                Ok(()) => {
                    &&& erro_autorizacao_admin(*old(self), chamador) is None
                    &&& final(self).hash_registrado(id_texto)
                    &&& final(self).hash_de(id_texto) == hash@
                    &&& forall|t: IdTexto|
                        t != id_texto ==> #[trigger] final(self).hash_registrado(t) == old(
                            self,
                        ).hash_registrado(t)
                    &&& forall|t: IdTexto|
                        t != id_texto && old(self).hash_registrado(t)
                            ==> #[trigger] final(self).hash_de(t) == old(self).hash_de(t)
                    &&& so_difere_hashes(*old(self), *final(self))
                },
                Err(e) => {
                    &&& erro_autorizacao_admin(*old(self), chamador) == Some(e)
                    &&& *final(self) == *old(self)
                },
            },
    {
        let admin = match self.admin {
            Some(a) => a,
            None => {
                return Err(Erro::NaoInicializado);
            },
        };
        if !(chamador == admin) {
            return Err(Erro::AutorizacaoNegada);
        }
        proof {
            lema_chaves_fieis();
        }
        definir(&mut self.hashes, id_texto, hash);
        Ok(())
    }

    /// True exactly when a digest is registered for the text and the
    /// SHA-256 digest of the given bytes equals it. A missing registration
    /// is an ordinary `false`, never an error.
    pub fn verificar_texto(&self, id_texto: IdTexto, texto: &[u8]) -> (r: bool)
        requires
            self.bem_formado(),
        ensures
            r == (self.hash_registrado(id_texto) && self.hash_de(id_texto) == digesto_sha256(
                texto@,
            )),
    {
        let calculado = calcular_sha256(texto);
        proof {
            lema_chaves_fieis();
        }
        match indice_de(&self.hashes, &id_texto) {
            Some(i) => {
                proof {
                    lema_indice_da_chave(self.hashes@, id_texto, i as int);
                }
                comparar_bytes(&self.hashes[i].1, &calculado)
            },
            None => false,
        }
    }

    /// Records that the principal has read the text. Marking a second time
    /// changes nothing; a first marking also advances the principal's
    /// progress counter for the text's book.
    pub fn marcar_lido(&mut self, leitor: Endereco, id_texto: IdTexto)
        requires
            old(self).bem_formado(),
            !old(self).leitura_marcada(leitor, id_texto) ==> old(self).progresso_de(
                leitor,
                id_texto.livro,
            ) < u32::MAX,
        ensures
            final(self).bem_formado(),
            pos_marcar_lido(*old(self), *final(self), leitor, id_texto),
    {
        proof {
            lema_chaves_fieis();
        }
        let chave = (leitor, id_texto);
        if let Some(_i) = indice_de(&self.leituras, &chave) {
            return ;
        }
        definir(&mut self.leituras, chave, ());
        let chave_progresso = (leitor, id_texto.livro);
        let atual: u32 = match indice_de(&self.progresso, &chave_progresso) {
            Some(i) => {
                proof {
                    lema_indice_da_chave(self.progresso@, chave_progresso, i as int);
                }
                self.progresso[i].1
            },
            None => 0,
        };
        definir(&mut self.progresso, chave_progresso, atual + 1);
    }

    /// Says, in words, whether the principal has marked the text as read.
    pub fn verificar_leitura(&self, leitor: Endereco, id_texto: IdTexto) -> (r: String)
        ensures
            self.leitura_marcada(leitor, id_texto) ==> r@ == "Leitura confirmada!"@,
            !self.leitura_marcada(leitor, id_texto) ==> r@
                == "Registro de leitura não encontrado."@,
    {
        proof {
            lema_chaves_fieis();
        }
        let chave = (leitor, id_texto);
        match indice_de(&self.leituras, &chave) {
            Some(i) => {
                proof {
                    assert(tem_chave(self.leituras@, chave));
                }
                "Leitura confirmada!".to_owned()
            },
            None => "Registro de leitura não encontrado.".to_owned(),
        }
    }

    /// Registers the total number of verses of a book. Only the configured
    /// administrator may do this.
    pub fn registrar_meta_livro(&mut self, chamador: Endereco, livro_id: u32, total_versiculos:
        u32) -> (r: Result<(), Erro>)
        requires
            old(self).bem_formado(),
        ensures
            final(self).bem_formado(),
            match r {
                Ok(()) => {
                    &&& erro_autorizacao_admin(*old(self), chamador) is None
                    &&& final(self).meta_do_livro(livro_id) == total_versiculos
                    &&& forall|l: u32|
                        l != livro_id ==> #[trigger] final(self).meta_do_livro(l) == old(
                            self,
                        ).meta_do_livro(l)
                    &&& so_difere_metas(*old(self), *final(self))
                },
                Err(e) => {
                    &&& erro_autorizacao_admin(*old(self), chamador) == Some(e)
                    &&& *final(self) == *old(self)
                },
            },
    {
        let admin = match self.admin {
            Some(a) => a,
            None => {
                return Err(Erro::NaoInicializado);
            },
        };
        if !(chamador == admin) {
            return Err(Erro::AutorizacaoNegada);
        }
        proof {
            lema_chaves_fieis();
        }
        definir(&mut self.metas_livros, livro_id, total_versiculos);
        Ok(())
    }
}

impl ContratoBiblia {
    /// How many distinct texts of this book the principal has read; see
    /// `marcar_lido`.
    pub fn obter_progresso(&self, leitor: Endereco, livro: u32) -> (r: u32)
        requires
            self.bem_formado(),
        ensures
            r == self.progresso_de(leitor, livro),
    {
        proof {
            lema_chaves_fieis();
        }
        let chave = (leitor, livro);
        match indice_de(&self.progresso, &chave) {
            Some(i) => {
                proof {
                    lema_indice_da_chave(self.progresso@, chave, i as int);
                }
                self.progresso[i].1
            },
            None => 0,
        }
    }

    /// How many reflections about this text have ever been published; the
    /// upper bound of `listar_reflexoes_publicas`' sequence numbers.
    pub fn contador_reflexoes_publicas(&self, id_texto: IdTexto) -> (r: u32)
        requires
            self.bem_formado(),
        ensures
            r == self.contador_publico(id_texto),
    {
        proof {
            lema_chaves_fieis();
        }
        match indice_de(&self.contadores, &id_texto) {
            Some(i) => {
                proof {
                    lema_indice_da_chave(self.contadores@, id_texto, i as int);
                }
                self.contadores[i].1
            },
            None => 0,
        }
    }

    /// Whether this liker currently likes this author's reflection on this
    /// text; what the next `curtir_reflexao` by the same liker will undo.
    pub fn ja_curtiu(&self, id_texto: IdTexto, autor_reflexao: Endereco, curtidor: Endereco)
        -> (r: bool)
        requires
            self.bem_formado(),
        ensures
            r == self.curtiu(id_texto, autor_reflexao, curtidor),
    {
        proof {
            lema_chaves_fieis();
        }
        let chave = (id_texto, autor_reflexao, curtidor);
        match indice_de(&self.curtidas, &chave) {
            Some(i) => {
                proof {
                    lema_indice_da_chave(self.curtidas@, chave, i as int);
                }
                true
            },
            None => false,
        }
    }

    /// Creates the one reflection this principal may have about this text;
    /// see `reflexoes::adicionar_reflexao`.
    pub fn adicionar_reflexao(
        &mut self,
        leitor: Endereco,
        id_texto: IdTexto,
        conteudo: String,
        publica: bool,
        agora: u64,
    ) -> (r: Result<(), Erro>)
        requires
            old(self).bem_formado(),
            publica && reflexoes::erro_adicionar(*old(self), leitor, id_texto, conteudo@) is None
                ==> old(self).contador_publico(id_texto) < u32::MAX,
        ensures
            final(self).bem_formado(),
            match r {
                Ok(()) => {
                    &&& reflexoes::erro_adicionar(*old(self), leitor, id_texto, conteudo@) is None
                    &&& reflexoes::pos_adicionar(
                        *old(self),
                        *final(self),
                        leitor,
                        id_texto,
                        conteudo@,
                        publica,
                        agora,
                    )
                },
                Err(e) => {
                    &&& reflexoes::erro_adicionar(*old(self), leitor, id_texto, conteudo@)
                        == Some(e)
                    &&& *final(self) == *old(self)
                },
            },
    {
        reflexoes::adicionar_reflexao(self, leitor, id_texto, conteudo, publica, agora)
    }

    /// Fetches this principal's reflection about this text; see
    /// `reflexoes::obter_reflexao`.
    pub fn obter_reflexao(&self, leitor: Endereco, id_texto: IdTexto) -> (r: Option<Reflexao>)
        requires
            self.bem_formado(),
        ensures
            match r {
                Some(rf) => reflexoes::obter_espec(*self, leitor, id_texto) == Some(rf@),
                None => reflexoes::obter_espec(*self, leitor, id_texto) is None,
            },
    {
        reflexoes::obter_reflexao(self, leitor, id_texto)
    }

    /// Lists the public reflections about a text; see
    /// `reflexoes::listar_reflexoes_publicas`.
    pub fn listar_reflexoes_publicas(&self, id_texto: IdTexto, limite: u32, offset: u32) -> (r:
        Vec<Reflexao>)
        requires
            self.bem_formado(),
        ensures
            r.deep_view() == reflexoes::listagem(*self, id_texto, offset,
                reflexoes::fim_da_listagem(*self, id_texto, limite, offset)),
            offset >= self.contador_publico(id_texto) ==> r@.len() == 0,
            limite == 0 ==> r@.len() == 0,
    {
        reflexoes::listar_reflexoes_publicas(self, id_texto, limite, offset)
    }

    /// Toggles a like on a public reflection; see
    /// `reflexoes::curtir_reflexao`.
    pub fn curtir_reflexao(&mut self, curtidor: Endereco, id_texto: IdTexto, autor_reflexao:
        Endereco) -> (r: Result<(), Erro>)
        requires
            old(self).bem_formado(),
            reflexoes::erro_curtir(*old(self), id_texto, autor_reflexao) is None && !old(
                self,
            ).curtiu(id_texto, autor_reflexao, curtidor) ==> old(self).reflexao_de(
                id_texto,
                autor_reflexao,
            ).curtidas < u32::MAX,
        ensures
            final(self).bem_formado(),
            match r {
                Ok(()) => {
                    &&& reflexoes::erro_curtir(*old(self), id_texto, autor_reflexao) is None
                    &&& reflexoes::pos_curtir(
                        *old(self),
                        *final(self),
                        curtidor,
                        id_texto,
                        autor_reflexao,
                    )
                },
                Err(e) => {
                    &&& reflexoes::erro_curtir(*old(self), id_texto, autor_reflexao) == Some(e)
                    &&& *final(self) == *old(self)
                },
            },
    {
        reflexoes::curtir_reflexao(self, curtidor, id_texto, autor_reflexao)
    }

    /// Appends a comment to a public reflection; see
    /// `reflexoes::comentar_reflexao`.
    pub fn comentar_reflexao(
        &mut self,
        comentarista: Endereco,
        id_texto: IdTexto,
        autor_reflexao: Endereco,
        conteudo: String,
        agora: u64,
    ) -> (r: Result<(), Erro>)
        requires
            old(self).bem_formado(),
        ensures
            final(self).bem_formado(),
            match r {
                Ok(()) => {
                    &&& reflexoes::erro_comentar(*old(self), id_texto, autor_reflexao, conteudo@)
                        is None
                    &&& reflexoes::pos_comentar(
                        *old(self),
                        *final(self),
                        comentarista,
                        id_texto,
                        autor_reflexao,
                        conteudo@,
                        agora,
                    )
                },
                Err(e) => {
                    &&& reflexoes::erro_comentar(*old(self), id_texto, autor_reflexao, conteudo@)
                        == Some(e)
                    &&& *final(self) == *old(self)
                },
            },
    {
        reflexoes::comentar_reflexao(self, comentarista, id_texto, autor_reflexao, conteudo, agora)
    }

    /// Removes one of the caller's own comments, by position; see
    /// `reflexoes::remover_comentario`.
    pub fn remover_comentario(
        &mut self,
        usuario: Endereco,
        id_texto: IdTexto,
        autor_reflexao: Endereco,
        indice_comentario: u32,
    ) -> (r: Result<(), Erro>)
        requires
            old(self).bem_formado(),
        ensures
            final(self).bem_formado(),
            match r {
                Ok(()) => {
                    &&& reflexoes::erro_remover(
                        *old(self),
                        usuario,
                        id_texto,
                        autor_reflexao,
                        indice_comentario,
                    ) is None
                    &&& reflexoes::pos_remover(
                        *old(self),
                        *final(self),
                        id_texto,
                        autor_reflexao,
                        indice_comentario,
                    )
                },
                Err(e) => {
                    &&& reflexoes::erro_remover(
                        *old(self),
                        usuario,
                        id_texto,
                        autor_reflexao,
                        indice_comentario,
                    ) == Some(e)
                    &&& *final(self) == *old(self)
                },
            },
    {
        reflexoes::remover_comentario(self, usuario, id_texto, autor_reflexao, indice_comentario)
    }

    /// Hands out the full comment log of a reflection; see
    /// `reflexoes::obter_comentarios`.
    pub fn obter_comentarios(&self, id_texto: IdTexto, autor_reflexao: Endereco) -> (r: Vec<
        Comentario,
    >)
        requires
            self.bem_formado(),
        ensures
            r.deep_view() == self.comentarios_de(id_texto, autor_reflexao),
    {
        reflexoes::obter_comentarios(self, id_texto, autor_reflexao)
    }

    /// Moves a reflection between the active and the removed state; see
    /// `reflexoes::moderar_reflexao`.
    pub fn moderar_reflexao(
        &mut self,
        chamador: Endereco,
        id_texto: IdTexto,
        autor_reflexao: Endereco,
        novo_status: StatusReflexao,
    ) -> (r: Result<(), Erro>)
        requires
            old(self).bem_formado(),
        ensures
            final(self).bem_formado(),
            match r {
                Ok(()) => {
                    &&& reflexoes::erro_moderar(*old(self), chamador, id_texto, autor_reflexao)
                        is None
                    &&& reflexoes::pos_moderar(
                        *old(self),
                        *final(self),
                        id_texto,
                        autor_reflexao,
                        novo_status,
                    )
                },
                Err(e) => {
                    &&& reflexoes::erro_moderar(*old(self), chamador, id_texto, autor_reflexao)
                        == Some(e)
                    &&& *final(self) == *old(self)
                },
            },
    {
        reflexoes::moderar_reflexao(self, chamador, id_texto, autor_reflexao, novo_status)
    }

    /// Reads the moderation status of a reflection; see
    /// `reflexoes::verificar_status_reflexao`.
    pub fn verificar_status_reflexao(&self, id_texto: IdTexto, autor_reflexao: Endereco) -> (r:
        StatusReflexao)
        requires
            self.bem_formado(),
        ensures
            r == self.status_de(id_texto, autor_reflexao),
    {
        reflexoes::verificar_status_reflexao(self, id_texto, autor_reflexao)
    }
}

/// True exactly when the two byte vectors hold the same bytes.
fn comparar_bytes(a: &Vec<u8>, b: &Vec<u8>) -> (r: bool)
    ensures
        r == (a@ == b@),
{
    if a.len() != b.len() {
        return false;
    }
    let mut i: usize = 0;
    while i < a.len()
        invariant
            a@.len() == b@.len(),
            i <= a@.len(),
            forall|j: int| 0 <= j < i ==> a@[j] == b@[j],
        decreases a@.len() - i,
    {
        if a[i] != b[i] {
            return false;
        }
        i = i + 1;
    }
    proof {
        assert(a@ =~= b@);
    }
    true
}

} // verus!
