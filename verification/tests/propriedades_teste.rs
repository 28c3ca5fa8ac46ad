use contrato_biblia::{ContratoBiblia, Endereco, Erro, IdTexto, StatusReflexao};
use sha2::Digest;

const TEXTO: &str = "No princípio criou Deus os céus e a terra.";

fn gen_1_1() -> IdTexto {
    IdTexto { livro: 1, capitulo: 1, versiculo: 1 }
}

fn sha256_de(dados: &[u8]) -> Vec<u8> {
    sha2::Sha256::digest(dados).to_vec()
}

fn preparado(admin: Endereco) -> ContratoBiblia {
    let mut c = ContratoBiblia::new();
    c.initialize(admin).unwrap();
    c.registrar_hash(admin, gen_1_1(), sha256_de(TEXTO.as_bytes())).unwrap();
    c
}

#[test]
fn refletir_apos_ler_devolve_o_registro() {
    let admin = Endereco { id: 1 };
    let leitor = Endereco { id: 2 };
    let t = gen_1_1();
    let mut c = preparado(admin);
    c.marcar_lido(leitor, t);
    c.adicionar_reflexao(leitor, t, "x".to_owned(), true, 42).unwrap();
    let r = c.obter_reflexao(leitor, t).unwrap();
    assert_eq!(r.conteudo, "x");
    assert!(r.publica);
    assert_eq!(r.curtidas, 0);
    assert_eq!(r.timestamp, 42);
    assert_eq!(r.leitor, leitor);
    assert_eq!(r.id_texto, t);
}

#[test]
fn duplicada_nao_altera_o_estado() {
    let admin = Endereco { id: 1 };
    let leitor = Endereco { id: 2 };
    let t = gen_1_1();
    let mut c = preparado(admin);
    c.marcar_lido(leitor, t);
    c.adicionar_reflexao(leitor, t, "primeira".to_owned(), true, 1).unwrap();
    let r = c.adicionar_reflexao(leitor, t, "segunda".to_owned(), true, 2);
    assert_eq!(r, Err(Erro::ReflexaoDuplicada));
    let guardada = c.obter_reflexao(leitor, t).unwrap();
    assert_eq!(guardada.conteudo, "primeira");
    assert_eq!(guardada.timestamp, 1);
    assert_eq!(c.contador_reflexoes_publicas(t), 1);
}

#[test]
fn sem_leitura_nada_e_escrito() {
    let admin = Endereco { id: 1 };
    let leitor = Endereco { id: 2 };
    let t = gen_1_1();
    let mut c = preparado(admin);
    let r = c.adicionar_reflexao(leitor, t, "cedo demais".to_owned(), true, 1);
    assert_eq!(r, Err(Erro::LeituraNaoConfirmada));
    assert!(c.obter_reflexao(leitor, t).is_none());
    assert_eq!(c.contador_reflexoes_publicas(t), 0);
    assert_eq!(c.verificar_status_reflexao(t, leitor), StatusReflexao::Ativa);
    assert_eq!(c.listar_reflexoes_publicas(t, 10, 0).len(), 0);
}

#[test]
fn refletir_sobre_texto_nao_registrado_falha() {
    let admin = Endereco { id: 1 };
    let leitor = Endereco { id: 2 };
    let fora_do_registro = IdTexto { livro: 9, capitulo: 9, versiculo: 9 };
    let mut c = preparado(admin);
    c.marcar_lido(leitor, fora_do_registro);
    let r = c.adicionar_reflexao(leitor, fora_do_registro, "cedo".to_owned(), true, 1);
    assert_eq!(r, Err(Erro::TextoNaoRegistrado));
    let sem_nada = c.remover_comentario(leitor, fora_do_registro, leitor, 0);
    assert_eq!(sem_nada, Err(Erro::IndiceComentarioInvalido));
}

#[test]
fn limites_de_comprimento_da_reflexao() {
    let admin = Endereco { id: 1 };
    let leitor = Endereco { id: 2 };
    let t = gen_1_1();
    let mut c = preparado(admin);
    c.marcar_lido(leitor, t);
    let vazio = c.adicionar_reflexao(leitor, t, String::new(), true, 1);
    assert_eq!(vazio, Err(Erro::ConteudoVazio));
    let longo = c.adicionar_reflexao(leitor, t, "a".repeat(501), true, 1);
    assert_eq!(longo, Err(Erro::ConteudoMuitoLongo));
    let justo = c.adicionar_reflexao(leitor, t, "a".repeat(500), true, 1);
    assert_eq!(justo, Ok(()));
}

#[test]
fn limites_de_comprimento_do_comentario() {
    let admin = Endereco { id: 1 };
    let leitor = Endereco { id: 2 };
    let outro = Endereco { id: 3 };
    let t = gen_1_1();
    let mut c = preparado(admin);
    c.marcar_lido(leitor, t);
    c.adicionar_reflexao(leitor, t, "base".to_owned(), true, 1).unwrap();
    let vazio = c.comentar_reflexao(outro, t, leitor, String::new(), 2);
    assert_eq!(vazio, Err(Erro::ConteudoVazio));
    let longo = c.comentar_reflexao(outro, t, leitor, "b".repeat(201), 2);
    assert_eq!(longo, Err(Erro::ConteudoMuitoLongo));
    let justo = c.comentar_reflexao(outro, t, leitor, "b".repeat(200), 2);
    assert_eq!(justo, Ok(()));
}

#[test]
fn verificar_texto_compara_o_digesto() {
    let admin = Endereco { id: 1 };
    let t = gen_1_1();
    let c = preparado(admin);
    assert!(c.verificar_texto(t, TEXTO.as_bytes()));
    assert!(!c.verificar_texto(t, "outros bytes".as_bytes()));
    let nao_registrado = IdTexto { livro: 2, capitulo: 1, versiculo: 1 };
    assert!(!c.verificar_texto(nao_registrado, TEXTO.as_bytes()));
}

#[test]
fn hash_da_reflexao_e_o_digesto_do_conteudo() {
    let admin = Endereco { id: 1 };
    let leitor = Endereco { id: 2 };
    let t = gen_1_1();
    let mut c = preparado(admin);
    c.marcar_lido(leitor, t);
    c.adicionar_reflexao(leitor, t, "Grace".to_owned(), true, 3).unwrap();
    let r = c.obter_reflexao(leitor, t).unwrap();
    assert_eq!(r.hash_reflexao, sha256_de("Grace".as_bytes()));
}

#[test]
fn listagem_de_uma_reflexao_publica() {
    let admin = Endereco { id: 1 };
    let a = Endereco { id: 2 };
    let t = gen_1_1();
    let mut c = preparado(admin);
    c.marcar_lido(a, t);
    c.adicionar_reflexao(a, t, "Grace".to_owned(), true, 9).unwrap();
    let lista = c.listar_reflexoes_publicas(t, 10, 0);
    assert_eq!(lista.len(), 1);
    assert_eq!(lista[0].leitor, a);
    assert_eq!(lista[0].conteudo, "Grace");
    assert!(lista[0].publica);
    assert_eq!(lista[0].curtidas, 0);
}

#[test]
fn curtir_alterna_em_duas_chamadas() {
    let admin = Endereco { id: 1 };
    let a = Endereco { id: 2 };
    let b = Endereco { id: 3 };
    let t = gen_1_1();
    let mut c = preparado(admin);
    c.marcar_lido(a, t);
    c.adicionar_reflexao(a, t, "Grace".to_owned(), true, 9).unwrap();
    c.curtir_reflexao(b, t, a).unwrap();
    assert_eq!(c.obter_reflexao(a, t).unwrap().curtidas, 1);
    c.curtir_reflexao(b, t, a).unwrap();
    assert_eq!(c.obter_reflexao(a, t).unwrap().curtidas, 0);
}

#[test]
fn curtidas_de_curtidores_distintos_somam() {
    let admin = Endereco { id: 1 };
    let a = Endereco { id: 2 };
    let t = gen_1_1();
    let mut c = preparado(admin);
    c.marcar_lido(a, t);
    c.adicionar_reflexao(a, t, "Grace".to_owned(), true, 9).unwrap();
    c.curtir_reflexao(Endereco { id: 3 }, t, a).unwrap();
    c.curtir_reflexao(Endereco { id: 4 }, t, a).unwrap();
    assert_eq!(c.obter_reflexao(a, t).unwrap().curtidas, 2);
}

#[test]
fn curtir_reflexao_inexistente_ou_privada() {
    let admin = Endereco { id: 1 };
    let a = Endereco { id: 2 };
    let b = Endereco { id: 3 };
    let t = gen_1_1();
    let mut c = preparado(admin);
    assert_eq!(c.curtir_reflexao(b, t, a), Err(Erro::ReflexaoNaoEncontrada));
    c.marcar_lido(a, t);
    c.adicionar_reflexao(a, t, "particular".to_owned(), false, 9).unwrap();
    assert_eq!(c.curtir_reflexao(b, t, a), Err(Erro::ReflexaoNaoPublica));
}

#[test]
fn comentar_reflexao_inexistente_ou_privada() {
    let admin = Endereco { id: 1 };
    let a = Endereco { id: 2 };
    let b = Endereco { id: 3 };
    let t = gen_1_1();
    let mut c = preparado(admin);
    assert_eq!(c.comentar_reflexao(b, t, a, "oi".to_owned(), 1), Err(Erro::ReflexaoNaoEncontrada));
    c.marcar_lido(a, t);
    c.adicionar_reflexao(a, t, "particular".to_owned(), false, 9).unwrap();
    assert_eq!(c.comentar_reflexao(b, t, a, "oi".to_owned(), 1), Err(Erro::ReflexaoNaoPublica));
}

#[test]
fn remover_comentario_de_outro_autor_falha() {
    let admin = Endereco { id: 1 };
    let a = Endereco { id: 2 };
    let quem_comenta = Endereco { id: 3 };
    let intruso = Endereco { id: 4 };
    let t = gen_1_1();
    let mut c = preparado(admin);
    c.marcar_lido(a, t);
    c.adicionar_reflexao(a, t, "Grace".to_owned(), true, 9).unwrap();
    c.comentar_reflexao(quem_comenta, t, a, "nice".to_owned(), 10).unwrap();
    let r = c.remover_comentario(intruso, t, a, 0);
    assert_eq!(r, Err(Erro::NaoAutorDoComentario));
    assert_eq!(c.obter_comentarios(t, a).len(), 1);
    let fora = c.remover_comentario(quem_comenta, t, a, 1);
    assert_eq!(fora, Err(Erro::IndiceComentarioInvalido));
    c.remover_comentario(quem_comenta, t, a, 0).unwrap();
    assert_eq!(c.obter_comentarios(t, a).len(), 0);
}

#[test]
fn remover_comentario_desloca_os_seguintes() {
    let admin = Endereco { id: 1 };
    let a = Endereco { id: 2 };
    let b = Endereco { id: 3 };
    let t = gen_1_1();
    let mut c = preparado(admin);
    c.marcar_lido(a, t);
    c.adicionar_reflexao(a, t, "Grace".to_owned(), true, 9).unwrap();
    c.comentar_reflexao(b, t, a, "um".to_owned(), 10).unwrap();
    c.comentar_reflexao(b, t, a, "dois".to_owned(), 11).unwrap();
    c.comentar_reflexao(b, t, a, "tres".to_owned(), 12).unwrap();
    c.remover_comentario(b, t, a, 1).unwrap();
    let restam = c.obter_comentarios(t, a);
    assert_eq!(restam.len(), 2);
    assert_eq!(restam[0].conteudo, "um");
    assert_eq!(restam[1].conteudo, "tres");
}

#[test]
fn listagem_fora_do_alcance_e_vazia() {
    let admin = Endereco { id: 1 };
    let a = Endereco { id: 2 };
    let t = gen_1_1();
    let mut c = preparado(admin);
    c.marcar_lido(a, t);
    c.adicionar_reflexao(a, t, "Grace".to_owned(), true, 9).unwrap();
    assert_eq!(c.contador_reflexoes_publicas(t), 1);
    assert_eq!(c.listar_reflexoes_publicas(t, 10, 1).len(), 0);
    assert_eq!(c.listar_reflexoes_publicas(t, 10, 7).len(), 0);
    assert_eq!(c.listar_reflexoes_publicas(t, 0, 0).len(), 0);
}

#[test]
fn listagem_respeita_offset_e_limite() {
    let admin = Endereco { id: 1 };
    let t = gen_1_1();
    let mut c = preparado(admin);
    for i in 0..4u64 {
        let quem = Endereco { id: 10 + i };
        c.marcar_lido(quem, t);
        c.adicionar_reflexao(quem, t, format!("reflexão {}", i), true, i).unwrap();
    }
    let pagina = c.listar_reflexoes_publicas(t, 2, 1);
    assert_eq!(pagina.len(), 2);
    assert_eq!(pagina[0].leitor, Endereco { id: 11 });
    assert_eq!(pagina[1].leitor, Endereco { id: 12 });
}

#[test]
fn erros_do_administrador() {
    let admin = Endereco { id: 1 };
    let intruso = Endereco { id: 9 };
    let t = gen_1_1();
    let mut c = ContratoBiblia::new();
    let cedo = c.registrar_hash(admin, t, sha256_de(b"x"));
    assert_eq!(cedo, Err(Erro::NaoInicializado));
    assert_eq!(c.registrar_meta_livro(admin, 1, 1533), Err(Erro::NaoInicializado));
    c.initialize(admin).unwrap();
    assert_eq!(c.initialize(intruso), Err(Erro::JaInicializado));
    let negado = c.registrar_hash(intruso, t, sha256_de(b"x"));
    assert_eq!(negado, Err(Erro::AutorizacaoNegada));
    assert_eq!(c.registrar_meta_livro(intruso, 1, 1533), Err(Erro::AutorizacaoNegada));
    assert_eq!(c.registrar_meta_livro(admin, 1, 1533), Ok(()));
}

#[test]
fn marcar_lido_e_idempotente_e_conta_progresso() {
    let admin = Endereco { id: 1 };
    let leitor = Endereco { id: 2 };
    let mut c = preparado(admin);
    let v1 = IdTexto { livro: 1, capitulo: 1, versiculo: 1 };
    let v2 = IdTexto { livro: 1, capitulo: 1, versiculo: 2 };
    assert_eq!(c.verificar_leitura(leitor, v1), "Registro de leitura não encontrado.");
    c.marcar_lido(leitor, v1);
    c.marcar_lido(leitor, v1);
    c.marcar_lido(leitor, v2);
    assert_eq!(c.verificar_leitura(leitor, v1), "Leitura confirmada!");
    assert_eq!(c.obter_progresso(leitor, 1), 2);
    assert_eq!(c.obter_progresso(leitor, 2), 0);
}

#[test]
fn moderacao_oculta_sem_apagar() {
    let admin = Endereco { id: 1 };
    let a = Endereco { id: 2 };
    let b = Endereco { id: 3 };
    let t = gen_1_1();
    let mut c = preparado(admin);
    c.marcar_lido(a, t);
    c.adicionar_reflexao(a, t, "Grace".to_owned(), true, 9).unwrap();
    assert_eq!(c.verificar_status_reflexao(t, a), StatusReflexao::Ativa);

    c.moderar_reflexao(admin, t, a, StatusReflexao::Removida).unwrap();
    assert_eq!(c.verificar_status_reflexao(t, a), StatusReflexao::Removida);
    assert!(c.obter_reflexao(a, t).is_none());
    assert_eq!(c.listar_reflexoes_publicas(t, 10, 0).len(), 0);
    assert_eq!(c.curtir_reflexao(b, t, a), Err(Erro::ReflexaoRemovida));
    assert_eq!(c.comentar_reflexao(b, t, a, "oi".to_owned(), 10), Err(Erro::ReflexaoRemovida));

    c.moderar_reflexao(a, t, a, StatusReflexao::Ativa).unwrap();
    assert_eq!(c.verificar_status_reflexao(t, a), StatusReflexao::Ativa);
    let de_volta = c.obter_reflexao(a, t).unwrap();
    assert_eq!(de_volta.conteudo, "Grace");
    assert_eq!(c.listar_reflexoes_publicas(t, 10, 0).len(), 1);
}

#[test]
fn removida_prevalece_sobre_privada() {
    let admin = Endereco { id: 1 };
    let a = Endereco { id: 2 };
    let b = Endereco { id: 3 };
    let t = gen_1_1();
    let mut c = preparado(admin);
    c.marcar_lido(a, t);
    c.adicionar_reflexao(a, t, "particular".to_owned(), false, 9).unwrap();
    c.moderar_reflexao(admin, t, a, StatusReflexao::Removida).unwrap();
    assert_eq!(c.comentar_reflexao(b, t, a, "oi".to_owned(), 10), Err(Erro::ReflexaoRemovida));
    assert_eq!(c.curtir_reflexao(b, t, a), Err(Erro::ReflexaoRemovida));
}

#[test]
fn ja_curtiu_segue_o_registro() {
    let admin = Endereco { id: 1 };
    let a = Endereco { id: 2 };
    let b = Endereco { id: 3 };
    let t = gen_1_1();
    let mut c = preparado(admin);
    c.marcar_lido(a, t);
    c.adicionar_reflexao(a, t, "Grace".to_owned(), true, 9).unwrap();
    assert!(!c.ja_curtiu(t, a, b));
    c.curtir_reflexao(b, t, a).unwrap();
    assert!(c.ja_curtiu(t, a, b));
    assert!(!c.ja_curtiu(t, a, Endereco { id: 4 }));
    c.curtir_reflexao(b, t, a).unwrap();
    assert!(!c.ja_curtiu(t, a, b));
}

#[test]
fn moderacao_exige_autor_ou_administrador() {
    let admin = Endereco { id: 1 };
    let a = Endereco { id: 2 };
    let intruso = Endereco { id: 3 };
    let t = gen_1_1();
    let mut c = preparado(admin);
    c.marcar_lido(a, t);
    c.adicionar_reflexao(a, t, "Grace".to_owned(), true, 9).unwrap();
    let r = c.moderar_reflexao(intruso, t, a, StatusReflexao::Removida);
    assert_eq!(r, Err(Erro::AutorizacaoNegada));
    assert_eq!(c.verificar_status_reflexao(t, a), StatusReflexao::Ativa);
    let inexistente = c.moderar_reflexao(admin, t, intruso, StatusReflexao::Removida);
    assert_eq!(inexistente, Err(Erro::ReflexaoNaoEncontrada));
}

#[test]
fn registrar_hash_sobrepoe_o_anterior() {
    let admin = Endereco { id: 1 };
    let t = gen_1_1();
    let mut c = preparado(admin);
    assert!(c.verificar_texto(t, TEXTO.as_bytes()));
    c.registrar_hash(admin, t, sha256_de(b"novo texto")).unwrap();
    assert!(!c.verificar_texto(t, TEXTO.as_bytes()));
    assert!(c.verificar_texto(t, b"novo texto"));
}
